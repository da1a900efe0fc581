use tilemap::TileMap;

#[test]
fn test_coords_to_index() {
    let map = TileMap::<usize, usize>::new(4, 2);
    let index = map.to_index((0, 1));
    assert_eq!(index, 4);
}

#[test]
fn by_coords() {
    let mut map: TileMap<i32, usize> = TileMap::new(4, 2);
    map.append(vec![0, 1, 2, 3, 4, 5, 6, 7]);
    let t = map.by_coords((2, 1));
    assert_eq!(Some(&6), t);
}

#[test]
fn by_index() {
    let mut map: TileMap<i32, usize> = TileMap::new(2, 2);
    map.append(vec![0, 1, 2, 3]);
    let t = map.get(2);
    assert_eq!(&2, t);
}

#[test]
fn by_area() {
    let mut map: TileMap<i32, usize> = TileMap::new(4, 2);
    map.append(vec![0, 1, 2, 3, 4, 5, 6, 7]);
    let tiles = map.coords_in_area((0, 0), (1, 1)).into_iter().map(|p| map.to_index(p));
    assert_eq!(tiles.collect::<Vec<_>>(), vec![0, 1, 4, 5]);
}

#[test]
fn using_u16() {
    let mut map: TileMap<u16, u16> = TileMap::new(4, 2);
    map.append(vec![0u16, 1, 2, 3, 4, 5, 6, 7]);
}

#[test]
fn area_pairs_row_major() {
    let map = TileMap::<u8, usize>::new(4, 2);
    let pairs = map.coords_in_area((0, 0), (1, 1));
    assert_eq!(pairs, vec![(0, 0), (1, 0), (0, 1), (1, 1)]);
}

#[test]
fn area_degenerate() {
    let map = TileMap::<u8, usize>::new(4, 2);
    let pairs = map.coords_in_area((2, 1), (2, 1));
    assert_eq!(pairs, vec![(2, 1)]);
}

#[test]
fn area_empty_when_reversed() {
    let map = TileMap::<u8, usize>::new(4, 2);
    let pairs = map.coords_in_area((1, 1), (0, 0));
    assert_eq!(pairs, Vec::new());
}

#[test]
fn round_trip_fully_populated() {
    let mut map: TileMap<usize, usize> = TileMap::new(3, 3);
    map.append((0..9).collect());
    for y in 0..3 {
        for x in 0..3 {
            assert_eq!(map.to_index((x, y)), x + y * 3);
            assert_eq!(map.get(map.to_index((x, y))), &(x + y * 3));
        }
    }
}

#[test]
fn row_major_read_back() {
    let mut map: TileMap<u32, usize> = TileMap::new(4, 2);
    let tiles: Vec<u32> = vec![10, 11, 12, 13, 14, 15, 16, 17];
    map.append(tiles.clone());
    for i in 0..8 {
        assert_eq!(map.get(i), &tiles[i]);
    }
}

#[test]
fn push_one_at_a_time() {
    let mut map: TileMap<char, u8> = TileMap::new(2, 1);
    map.push('a');
    map.push('b');
    assert_eq!(map.get(0), &'a');
    assert_eq!(map.get(1), &'b');
}

#[test]
fn over_capacity_append_succeeds() {
    let mut map: TileMap<i32, usize> = TileMap::new(2, 2);
    map.append(vec![0, 1, 2, 3, 4]);
    assert_eq!(map.get(4), &4);
}

#[test]
fn over_capacity_push_succeeds() {
    let mut map: TileMap<i32, u16> = TileMap::new(1, 1);
    map.push(5);
    map.push(6);
    assert_eq!(map.get(1), &6);
}

#[test]
fn by_coords_index_equal_to_length_is_none() {
    let mut map: TileMap<i32, usize> = TileMap::new(2, 2);
    map.append(vec![0, 1, 2, 3]);
    assert_eq!(map.by_coords((0, 2)), None);
}

#[test]
fn by_coords_past_length_is_none() {
    let mut map: TileMap<i32, usize> = TileMap::new(2, 2);
    map.append(vec![0, 1]);
    assert_eq!(map.by_coords((1, 1)), None);
    assert_eq!(map.by_coords((1, 0)), Some(&1));
}

#[test]
fn end_to_end_scenario() {
    let mut map: TileMap<i32, usize> = TileMap::new(4, 2);
    map.append(vec![0, 1, 2, 3, 4, 5, 6, 7]);
    assert_eq!(map.by_coords((2, 1)), Some(&6));
    assert_eq!(map.get(2), &2);
    assert_eq!(map.to_index((0, 1)), 4);
}

#[test]
fn scalar_u32_coordinates() {
    let mut map: TileMap<i32, u32> = TileMap::new(3, 2);
    map.append(vec![9, 8, 7, 6, 5, 4]);
    assert_eq!(map.to_index((1, 1)), 4);
    assert_eq!(map.by_coords((1, 1)), Some(&5));
}

#[test]
fn scalar_u8_coordinates() {
    let mut map: TileMap<i32, u8> = TileMap::new(2, 2);
    map.push(1);
    assert_eq!(map.by_coords((0, 0)), Some(&1));
    assert_eq!(map.by_coords((1, 1)), None);
}

use beatcraft_editor::atlas::{pack_atlas, ATLAS_SIZE};

fn disjoint(a: (u32, u32), sa: (u32, u32), b: (u32, u32), sb: (u32, u32)) -> bool {
    a.0 + sa.0 <= b.0 || b.0 + sb.0 <= a.0 || a.1 + sa.1 <= b.1 || b.1 + sb.1 <= a.1
}

#[test]
fn atlas_fills_shelves_left_to_right() {
    let sizes = [(512, 256), (512, 128), (600, 100), (300, 300)];
    let corners = pack_atlas(&sizes).unwrap();
    assert_eq!(corners, vec![(0, 0), (512, 0), (0, 256), (600, 256)]);
}

#[test]
fn atlas_new_shelf_below_tallest() {
    let sizes = [(1000, 10), (100, 50), (100, 20)];
    let corners = pack_atlas(&sizes).unwrap();
    assert_eq!(corners, vec![(0, 0), (0, 10), (100, 10)]);
}

#[test]
fn atlas_rejects_oversized_texture() {
    assert_eq!(pack_atlas(&[(ATLAS_SIZE + 1, 4)]), None);
    assert_eq!(pack_atlas(&[(4, ATLAS_SIZE + 1)]), None);
}

#[test]
fn atlas_rejects_when_full() {
    let sizes = [(1024, 600), (1024, 600)];
    assert_eq!(pack_atlas(&sizes), None);
}

#[test]
fn atlas_exact_fit() {
    let sizes = [(1024, 512), (512, 512), (512, 512)];
    assert_eq!(pack_atlas(&sizes), Some(vec![(0, 0), (0, 512), (512, 512)]));
}

#[test]
fn atlas_empty_input() {
    assert_eq!(pack_atlas(&[]), Some(Vec::new()));
}

#[test]
fn atlas_placements_inside_and_apart() {
    let sizes = [(300, 40), (500, 90), (400, 10), (700, 200), (64, 64), (1024, 1), (10, 300)];
    let corners = pack_atlas(&sizes).unwrap();
    assert_eq!(corners.len(), sizes.len());
    for k in 0..sizes.len() {
        assert!(corners[k].0 + sizes[k].0 <= ATLAS_SIZE);
        assert!(corners[k].1 + sizes[k].1 <= ATLAS_SIZE);
        for j in 0..k {
            assert!(disjoint(corners[j], sizes[j], corners[k], sizes[k]));
        }
    }
}

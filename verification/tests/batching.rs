use render_front::batch::{batch, DrawCall, DrawGroup};
use render_front::buffers::InstanceRaw;

fn matrix(tag: f32) -> InstanceRaw {
    let mut model = [[0u32; 4]; 4];
    for c in 0..4 {
        model[c][c] = 1.0f32.to_bits();
    }
    model[3][0] = tag.to_bits();
    InstanceRaw { model }
}

fn request(texture_id: usize, mesh_id: usize, tag: f32) -> DrawCall {
    DrawCall { mesh_id, texture_id, matrix: matrix(tag) }
}

fn distinct_pairs(requests: &[DrawCall]) -> usize {
    let mut seen = std::collections::HashSet::new();
    for r in requests {
        seen.insert((r.texture_id, r.mesh_id));
    }
    seen.len()
}

#[test]
fn no_requests_give_no_groups() {
    let groups = batch(&Vec::new());
    assert!(groups.is_empty());
}

#[test]
fn same_key_gives_one_group_in_submission_order() {
    let i = matrix(1.0);
    let j = matrix(2.0);
    let requests = vec![
        DrawCall { mesh_id: 3, texture_id: 7, matrix: i },
        DrawCall { mesh_id: 3, texture_id: 7, matrix: j },
    ];
    let groups = batch(&requests);
    assert_eq!(groups.len(), 1);
    assert_eq!(groups[0].mesh_id, 3);
    assert_eq!(groups[0].texture_id, 7);
    assert_eq!(groups[0].matrices, vec![i, j]);
}

#[test]
fn one_request_gives_one_group_of_one() {
    let groups = batch(&vec![request(1, 2, 5.0)]);
    assert_eq!(
        groups,
        vec![DrawGroup { texture_id: 1, mesh_id: 2, matrices: vec![matrix(5.0)] }]
    );
}

#[test]
fn groups_are_as_many_as_distinct_pairs() {
    let requests = vec![
        request(0, 0, 1.0),
        request(1, 0, 2.0),
        request(0, 1, 3.0),
        request(0, 0, 4.0),
        request(1, 1, 5.0),
        request(1, 0, 6.0),
        request(0, 0, 7.0),
    ];
    let groups = batch(&requests);
    assert_eq!(groups.len(), 4);
    assert_eq!(groups.len(), distinct_pairs(&requests));
}

#[test]
fn groups_stand_in_order_of_first_occurrence() {
    let requests = vec![
        request(9, 1, 1.0),
        request(2, 1, 2.0),
        request(9, 1, 3.0),
        request(2, 0, 4.0),
        request(2, 1, 5.0),
    ];
    let groups = batch(&requests);
    let keys: Vec<(usize, usize)> = groups.iter().map(|g| (g.texture_id, g.mesh_id)).collect();
    assert_eq!(keys, vec![(9, 1), (2, 1), (2, 0)]);
}

#[test]
fn interleaved_requests_keep_their_order_within_a_group() {
    let requests = vec![
        request(0, 0, 1.0),
        request(1, 0, 2.0),
        request(0, 0, 3.0),
        request(1, 0, 4.0),
        request(0, 0, 5.0),
    ];
    let groups = batch(&requests);
    assert_eq!(groups.len(), 2);
    assert_eq!(groups[0].matrices, vec![matrix(1.0), matrix(3.0), matrix(5.0)]);
    assert_eq!(groups[1].matrices, vec![matrix(2.0), matrix(4.0)]);
}

#[test]
fn mesh_and_texture_are_not_confused() {
    let requests = vec![request(1, 2, 1.0), request(2, 1, 2.0)];
    let groups = batch(&requests);
    assert_eq!(groups.len(), 2);
    assert_eq!((groups[0].texture_id, groups[0].mesh_id), (1, 2));
    assert_eq!((groups[1].texture_id, groups[1].mesh_id), (2, 1));
}

#[test]
fn large_handles_are_told_apart() {
    let requests = vec![
        request(usize::MAX, 0, 1.0),
        request(0, usize::MAX, 2.0),
        request(usize::MAX, usize::MAX, 3.0),
        request(usize::MAX, 0, 4.0),
        request(usize::MAX - 1, 1, 5.0),
    ];
    let groups = batch(&requests);
    assert_eq!(groups.len(), 4);
    assert_eq!(groups[0].matrices, vec![matrix(1.0), matrix(4.0)]);
}

#[test]
fn no_request_is_lost_or_doubled() {
    let mut requests = Vec::new();
    for n in 0..200usize {
        requests.push(request(n % 3, n % 5, n as f32));
    }
    let groups = batch(&requests);
    assert_eq!(groups.len(), 15);
    let total: usize = groups.iter().map(|g| g.matrices.len()).sum();
    assert_eq!(total, requests.len());
    for g in &groups {
        let expected: Vec<InstanceRaw> = requests
            .iter()
            .filter(|r| r.texture_id == g.texture_id && r.mesh_id == g.mesh_id)
            .map(|r| r.matrix)
            .collect();
        assert_eq!(g.matrices, expected);
    }
}

#[test]
fn equal_transforms_are_all_kept() {
    let requests = vec![request(0, 0, 1.0), request(0, 0, 1.0), request(0, 0, 1.0)];
    let groups = batch(&requests);
    assert_eq!(groups.len(), 1);
    assert_eq!(groups[0].matrices.len(), 3);
}

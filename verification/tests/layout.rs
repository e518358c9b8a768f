use terrain::chunk::{
    chunk_translation, faces, sample_points, ChunkTranslation, Face, CHUNKS, SAMPLES, STEPS, SUBDIV,
    SUBDIV_PER_TILE,
};
use terrain::poll::{poll_terrain, PollAction};
use terrain::sun::{rotate_sun, SunRotation};

#[test]
fn the_six_faces() {
    assert_eq!(
        faces(),
        vec![Face::X, Face::Y, Face::Z, Face::NegX, Face::NegY, Face::NegZ]
    );
}

#[test]
fn corners_of_the_faces() {
    assert_eq!(CHUNKS, 8192 * 8192);
    let first = |face| chunk_translation(face, 0);
    let last = |face| chunk_translation(face, CHUNKS - 1);
    assert_eq!(first(Face::X), ChunkTranslation { x: 8192, y: -8191, z: -8191 });
    assert_eq!(last(Face::X), ChunkTranslation { x: 8192, y: 8191, z: 8191 });
    assert_eq!(first(Face::Y), ChunkTranslation { x: -8191, y: 8192, z: -8191 });
    assert_eq!(first(Face::Z), ChunkTranslation { x: -8191, y: -8191, z: 8192 });
    assert_eq!(first(Face::NegX), ChunkTranslation { x: -8192, y: -8191, z: -8191 });
    assert_eq!(last(Face::NegY), ChunkTranslation { x: 8191, y: -8192, z: 8191 });
    assert_eq!(last(Face::NegZ), ChunkTranslation { x: 8191, y: 8191, z: -8192 });
}

#[test]
fn chunks_are_counted_row_after_row() {
    assert_eq!(chunk_translation(Face::X, 1), ChunkTranslation { x: 8192, y: -8189, z: -8191 });
    assert_eq!(
        chunk_translation(Face::X, SUBDIV),
        ChunkTranslation { x: 8192, y: -8191, z: -8189 }
    );
    assert_eq!(
        chunk_translation(Face::NegZ, 3 * SUBDIV + 4096),
        ChunkTranslation { x: 1, y: -8185, z: -8192 }
    );
}

#[test]
fn chunks_agree_with_floating_point() {
    let chunk_size = 2.0_f32 / SUBDIV as f32;
    let centre_offset = (SUBDIV as f32 - 1.0) * 0.5;
    for i in (0..CHUNKS).step_by(4099) {
        let a = ((i % SUBDIV) as f32 - centre_offset) * chunk_size;
        let b = ((i / SUBDIV) as f32 - centre_offset) * chunk_size;
        let chunk = chunk_translation(Face::NegY, i);
        assert_eq!(chunk.x as f32 / SUBDIV as f32, a);
        assert_eq!(chunk.y as f32 / SUBDIV as f32, -1.0);
        assert_eq!(chunk.z as f32 / SUBDIV as f32, b);
    }
}

#[test]
fn opposite_chunks_lie_opposite() {
    let chunk = chunk_translation(Face::Y, 12_345_678);
    let opposite = chunk_translation(Face::NegY, CHUNKS - 1 - 12_345_678);
    assert_eq!((opposite.x, opposite.y, opposite.z), (-chunk.x, -chunk.y, -chunk.z));
}

/// Where a sample is along an axis, in units that put `2 * (STEPS - 1)` into the side of a chunk.
fn place(chunk: i32, n: u32) -> i32 {
    let gaps = STEPS as i32 - 1;
    gaps * chunk + 2 * n as i32 - gaps
}

#[test]
fn neighbours_share_samples() {
    let left = chunk_translation(Face::Y, 99);
    let right = chunk_translation(Face::Y, 100);
    let points = sample_points();
    let last = points[points.len() - 1].0;
    assert_eq!(place(left.x, last), place(right.x, points[0].0));
    assert_eq!(place(left.x, 0), 65 * left.x - 65);
    assert_eq!(place(left.x, last), 65 * left.x + 65);
}

#[test]
fn chunks_meet_without_gap_or_overlap() {
    for i in [0, 1, 4095, 8190] {
        let here = chunk_translation(Face::Z, i);
        let beside = chunk_translation(Face::Z, i + 1);
        let above = chunk_translation(Face::Z, i + SUBDIV);
        assert_eq!((beside.x - here.x, beside.y - here.y), (2, 0));
        assert_eq!((above.x - here.x, above.y - here.y), (0, 2));
    }
    let last = chunk_translation(Face::Z, SUBDIV - 1);
    assert_eq!(last.x + 1, SUBDIV as i32);
    let next_row = chunk_translation(Face::Z, SUBDIV);
    assert_eq!((next_row.x - 1, next_row.y), (-(SUBDIV as i32), -8189));
}

#[test]
fn no_two_chunks_are_in_one_place() {
    let mut seen = Vec::new();
    for face in faces() {
        for i in [0, 1, SUBDIV - 1, SUBDIV, CHUNKS - SUBDIV, CHUNKS - 1] {
            let chunk = chunk_translation(face, i);
            assert!(!seen.contains(&chunk));
            seen.push(chunk);
        }
    }
}

#[test]
fn samples_fill_the_chunk() {
    let points = sample_points();
    assert_eq!(SUBDIV_PER_TILE, 64);
    assert_eq!(STEPS, 66);
    assert_eq!(points.len(), 66 * 66);
    assert_eq!(points.len(), SAMPLES as usize);
    for column in 0..66 {
        for row in 0..66 {
            assert_eq!(points.iter().filter(|p| **p == (column, row)).count(), 1);
        }
    }
    assert!(!points.contains(&(66, 0)));
    assert!(!points.contains(&(0, 66)));
}

#[test]
fn samples_agree_with_floating_point() {
    let points = sample_points();
    let mut k = 0;
    for i in 0..STEPS {
        for j in 0..STEPS {
            let pct_x = (i as f32 / (STEPS - 1) as f32) - 0.5;
            let pct_z = (j as f32 / (STEPS - 1) as f32) - 0.5;
            assert!((place(0, points[k].0) as f32 / 130.0 - pct_x).abs() < 1e-6);
            assert!((place(0, points[k].1) as f32 / 130.0 - pct_z).abs() < 1e-6);
            k += 1;
        }
    }
}

#[test]
fn vertices_of_the_mesh_are_samples() {
    let points = sample_points();
    let size = 2.0_f32 / SUBDIV as f32;
    let vertices = SUBDIV_PER_TILE + 2;
    for z in 0..vertices {
        for x in 0..vertices {
            let vertex = |n: u32| (-0.5 + n as f32 / (vertices - 1) as f32) * size;
            let sample = |n: u32| (n as f32 / (STEPS - 1) as f32 - 0.5) * size;
            assert!(points.iter().any(|p| sample(p.0) == vertex(x) && sample(p.1) == vertex(z)));
        }
    }
}

/// Polls the tasks once: what is shown, and the tasks that stay.
fn round(tasks: Vec<(u8, Option<Option<u8>>)>) -> (Vec<u8>, Vec<u8>) {
    let mut shown = Vec::new();
    let mut stay = Vec::new();
    for (task, polled) in tasks {
        match poll_terrain(polled) {
            PollAction::Wait => stay.push(task),
            PollAction::Remove => {}
            PollAction::SpawnAndRemove(mesh) => shown.push(mesh),
        }
    }
    (shown, stay)
}

#[test]
fn just_the_unfinished_tasks_stay() {
    let tasks = vec![(1, None), (2, Some(Some(20))), (3, Some(None)), (4, None), (5, Some(Some(50)))];
    assert_eq!(round(tasks), (vec![20, 50], vec![1, 4]));
}

#[test]
fn an_idle_round_changes_nothing() {
    assert_eq!(round(vec![(1, None), (4, None)]), (vec![], vec![1, 4]));
    assert_eq!(round(vec![]), (vec![], vec![]));
}

#[test]
fn tasks_wait_until_they_are_finished() {
    assert!(matches!(poll_terrain::<u8>(None), PollAction::Wait));
    assert!(matches!(poll_terrain::<u8>(Some(None)), PollAction::Remove));
    assert!(matches!(poll_terrain(Some(Some(7))), PollAction::SpawnAndRemove(7)));
}

#[test]
fn keys_turn_the_sun() {
    let turn = |vertical, horizontal| SunRotation { vertical, horizontal };
    assert_eq!(rotate_sun(false, false, false, false), turn(0, 0));
    assert_eq!(rotate_sun(true, false, false, false), turn(-1, 0));
    assert_eq!(rotate_sun(false, true, false, false), turn(1, 0));
    assert_eq!(rotate_sun(false, false, true, false), turn(0, -2));
    assert_eq!(rotate_sun(false, false, false, true), turn(0, 2));
    assert_eq!(rotate_sun(true, true, true, true), turn(0, 0));
    assert_eq!(rotate_sun(true, false, false, true), turn(-1, 2));
}

#[test]
fn rotation_agrees_with_floating_point() {
    assert_eq!(rotate_sun(true, false, false, false).vertical as f32 / 10.0, 0.0 - 0.1_f32);
    assert_eq!(rotate_sun(false, true, false, false).vertical as f32 / 10.0, 0.0 + 0.1_f32);
    assert_eq!(rotate_sun(true, true, true, true).vertical as f32 / 10.0, 0.0 - 0.1_f32 + 0.1);
    assert_eq!(rotate_sun(false, false, true, false).horizontal as f32 / 10.0, 0.0 - 0.2_f32);
    assert_eq!(rotate_sun(false, false, false, true).horizontal as f32 / 10.0, 0.0 + 0.2_f32);
}

use terrain_wave::config::{ConfigError, FRAMES_NUMBER, HEIGHT_UNIT, SIZE};
use terrain_wave::frames::build_frames;
use terrain_wave::grid::{build_grid, sample_points, Vertex};
use terrain_wave::indices::build_indices;
use terrain_wave::mesh::{wave_effect, MeshData, WaveAction};

fn flat_heights(size: u32, h: i64) -> Vec<i64> {
    vec![h; ((size + 1) * (size + 1)) as usize]
}

fn ramp_heights(size: u32) -> Vec<i64> {
    (0..((size + 1) * (size + 1)) as i64).map(|i| (i - 4) * 250_000).collect()
}

#[test]
fn indices_size_two() {
    let idx = build_indices(2);
    assert_eq!(idx.len(), 24);
    // The emission rule: n, n+3, n+1, n+1, n+3, n+4 for the first cell.
    assert_eq!(&idx[0..6], &[0, 3, 1, 1, 3, 4]);
    assert_eq!(&idx[6..12], &[1, 4, 2, 2, 4, 5]);
    // The second row is the first shifted by size + 1.
    for p in 0..12 {
        assert_eq!(idx[12 + p], idx[p] + 3);
    }
    let grid = build_grid(2, &flat_heights(2, 0));
    assert_eq!(grid.len(), 9 + 10);
}

#[test]
fn indices_size_zero_and_one() {
    assert!(build_indices(0).is_empty());
    assert_eq!(build_indices(1), vec![0, 2, 1, 1, 2, 3]);
}

#[test]
fn indices_stay_within_grid() {
    for size in 1..=12u32 {
        let idx = build_indices(size);
        assert_eq!(idx.len() as u32, 6 * size * size);
        let limit = (size + 1) * (size + 1);
        assert!(idx.iter().all(|&i| i < limit));
        assert_eq!(*idx.iter().max().unwrap(), limit - 1);
    }
}

#[test]
fn indices_full_size() {
    let idx = build_indices(SIZE);
    assert_eq!(idx.len(), 6 * 300 * 300);
    assert!(idx.iter().all(|&i| i < 301 * 301));
}

#[test]
fn grid_layout_and_border() {
    let heights = ramp_heights(2);
    let grid = build_grid(2, &heights);
    assert_eq!(grid[0], Vertex { x: 0, y: heights[0], z: 0 });
    assert_eq!(grid[4], Vertex { x: 1, y: heights[4], z: 1 });
    assert_eq!(grid[5], Vertex { x: 2, y: heights[5], z: 1 });
    assert_eq!(grid[8], Vertex { x: 2, y: heights[8], z: 2 });
    for i in 0..5u32 {
        assert_eq!(grid[9 + 2 * i as usize], Vertex { x: i, y: 0, z: 0 });
        assert_eq!(grid[10 + 2 * i as usize], Vertex { x: i, y: 0, z: 1 });
    }
}

#[test]
fn sample_points_follow_previous_point() {
    let pts = sample_points(1);
    assert_eq!(pts, vec![(0, 128), (10, 0), (1280, 10), (10, 1290)]);
    let pts = sample_points(2);
    assert_eq!(pts.len(), 9);
    // Point (0, 1) follows point (2, 0).
    assert_eq!(pts[3], (2 * 1280, 10));
}

#[test]
fn grid_and_samples_are_deterministic() {
    let heights = ramp_heights(3);
    assert_eq!(build_grid(3, &heights), build_grid(3, &heights));
    assert_eq!(sample_points(3), sample_points(3));
}

#[test]
fn frames_of_height_two() {
    let vertices = vec![Vertex { x: 0, y: 2 * HEIGHT_UNIT, z: 0 }];
    let frames = build_frames(&vertices, FRAMES_NUMBER).unwrap();
    assert_eq!(frames.len(), 60);
    assert_eq!(frames[0][0], 2_000_000);
    assert_eq!(frames[59][0], -2_000_000);
    assert_eq!(frames[30][0], -33_898);
    let f30 = frames[30][0] as f64 / HEIGHT_UNIT as f64;
    assert!((f30 - -0.0339).abs() < 1e-3);
}

#[test]
fn frames_first_and_last() {
    let vertices: Vec<Vertex> = [7, -3, 0, 1_999_999, -5_000_001]
        .iter()
        .enumerate()
        .map(|(i, &y)| Vertex { x: i as u32, y, z: 0 })
        .collect();
    for count in [2u32, 3, 7, 60] {
        let frames = build_frames(&vertices, count).unwrap();
        assert_eq!(frames.len(), count as usize);
        for (i, v) in vertices.iter().enumerate() {
            assert_eq!(frames[0][i], v.y);
            assert_eq!(frames[count as usize - 1][i], -v.y);
        }
    }
    // Rounding toward zero keeps negative heights symmetric with positive ones.
    let frames = build_frames(&vertices, 4).unwrap();
    assert_eq!(frames[1][0], 7 - 14 / 3);
    assert_eq!(frames[1][1], -3 + 6 / 3);
}

#[test]
fn frames_need_two() {
    let vertices = vec![Vertex { x: 0, y: 5, z: 0 }];
    assert_eq!(build_frames(&vertices, 0), Err(ConfigError::InvalidConfiguration));
    assert_eq!(build_frames(&vertices, 1), Err(ConfigError::InvalidConfiguration));
    assert!(build_frames(&vertices, 2).is_ok());
}

#[test]
fn setup_rejects_invalid_configuration() {
    assert!(matches!(
        MeshData::setup(0, &flat_heights(0, 1), 60),
        Err(ConfigError::InvalidConfiguration)
    ));
    assert!(matches!(
        MeshData::setup(2, &flat_heights(2, 1), 1),
        Err(ConfigError::InvalidConfiguration)
    ));
}

#[test]
fn setup_initial_state() {
    let m = MeshData::setup(2, &ramp_heights(2), 60).unwrap();
    assert_eq!(m.vertices().len(), 19);
    assert_eq!(m.indices(), &build_indices(2));
    assert_eq!(m.frames().len(), 60);
    assert_eq!(m.current_frame(), 0);
    assert_eq!(m.frame_direction(), 1);
    assert!(m.is_spawn());
}

#[test]
fn playback_stays_in_range_and_cycles() {
    let mut m = MeshData::setup(2, &ramp_heights(2), FRAMES_NUMBER).unwrap();
    let last = FRAMES_NUMBER - 1;
    for _ in 0..3 {
        for _ in 0..2 * last {
            let before = m.frame_direction();
            m.advance_playback();
            assert!(m.current_frame() <= last);
            let flipped = m.frame_direction() != before;
            let at_end = m.current_frame() == 0 || m.current_frame() == last;
            assert_eq!(flipped, at_end);
        }
        assert_eq!(m.current_frame(), 0);
        assert_eq!(m.frame_direction(), 1);
    }
}

#[test]
fn playback_with_two_frames() {
    let mut m = MeshData::setup(1, &flat_heights(1, 3), 2).unwrap();
    m.advance_playback();
    assert_eq!((m.current_frame(), m.frame_direction()), (1, -1));
    m.advance_playback();
    assert_eq!((m.current_frame(), m.frame_direction()), (0, 1));
}

#[test]
fn advance_applies_current_frame() {
    let heights = ramp_heights(2);
    let mut m = MeshData::setup(2, &heights, 5).unwrap();
    m.advance_frame();
    assert_eq!(m.current_frame(), 1);
    for (i, v) in m.vertices().iter().enumerate() {
        assert_eq!(v.y, m.frames()[0][i]);
    }
    m.advance_frame();
    let frame1 = m.frames()[1].clone();
    for (i, v) in m.vertices().iter().enumerate() {
        assert_eq!(v.y, frame1[i]);
        if i < 9 {
            assert_eq!((v.x, v.z), (i as u32 % 3, i as u32 / 3));
        }
    }
    // Frame 1 of 5 is the height less half of it.
    assert_eq!(frame1[0], heights[0] - heights[0] / 2);
}

#[test]
fn wave_effect_advances_every_second_firing() {
    let mut m = MeshData::setup(2, &ramp_heights(2), 60).unwrap();
    let start: Vec<Vertex> = m.vertices().clone();
    assert_eq!(wave_effect(&mut m, false), WaveAction::Idle);
    assert!(m.is_spawn());
    assert_eq!(wave_effect(&mut m, true), WaveAction::Republish);
    assert!(!m.is_spawn());
    assert_eq!(m.current_frame(), 0);
    assert_eq!(m.vertices(), &start);
    assert_eq!(wave_effect(&mut m, false), WaveAction::Idle);
    assert_eq!(wave_effect(&mut m, true), WaveAction::RepublishAndPrune);
    assert!(m.is_spawn());
    assert_eq!(m.current_frame(), 1);
    assert_eq!(wave_effect(&mut m, true), WaveAction::Republish);
    assert_eq!(wave_effect(&mut m, true), WaveAction::RepublishAndPrune);
    assert_eq!(m.current_frame(), 2);
    let frame1 = m.frames()[1].clone();
    for (i, v) in m.vertices().iter().enumerate() {
        assert_eq!(v.y, frame1[i]);
    }
}

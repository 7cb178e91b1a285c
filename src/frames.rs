//! The frame table: for each animation frame, the height of every vertex,
//! interpolated linearly from its sampled height down through zero to its
//! negation.
use vstd::prelude::*;
use vstd::arithmetic::div_mod::{lemma_div_is_ordered, lemma_div_multiples_vanish, lemma_div_pos_is_pos};
use crate::config::ConfigError;
use crate::grid::Vertex;

verus! {

/// Height of a vertex of height `h` in frame `k` of a table whose last frame
/// is `last`: `h - 2*h*k / last`, with the quotient rounded toward zero.
pub open spec fn frame_height(h: int, k: int, last: int) -> int {
    if h >= 0 {
        h - (2 * h * k) / last
    } else {
        h + (2 * (-h) * k) / last
    }
}

/// Heights that a frame table can be built from: each one can be negated.
pub open spec fn heights_negatable(vertices: Seq<Vertex>) -> bool {
    forall|i: int| 0 <= i < vertices.len() ==> vertices[i].y != i64::MIN
}

/// `frames` holds `count` frames, one height per vertex in each, as given by
/// `frame_height`.
pub open spec fn frames_of(vertices: Seq<Vertex>, count: int, frames: Seq<Seq<i64>>) -> bool {
    &&& frames.len() == count
    &&& forall|k: int| 0 <= k < count ==> #[trigger] frames[k].len() == vertices.len()
    &&& forall|k: int, i: int|
        0 <= k < count && 0 <= i < vertices.len() ==> #[trigger] frames[k][i] as int
            == frame_height(vertices[i].y as int, k, count - 1)
}

/// The height of `h` in frame `k` lies between `-|h|` and `|h|`, and the
/// last frame holds `-h`.
pub proof fn lemma_frame_height_bounds(h: int, k: int, last: int)
    requires
        last >= 1,
        0 <= k <= last,
    ensures
        h >= 0 ==> -h <= frame_height(h, k, last) <= h,
        h < 0 ==> h <= frame_height(h, k, last) <= -h,
        frame_height(h, 0, last) == h,
        frame_height(h, last, last) == -h,
{
    let m = if h >= 0 { h } else { -h };
    assert(2 * m * k <= last * (2 * m)) by (nonlinear_arith)
        requires
            m >= 0,
            0 <= k <= last,
    ;
    assert(2 * m * k >= 0) by (nonlinear_arith)
        requires
            m >= 0,
            k >= 0,
    ;
    lemma_div_is_ordered(2 * m * k, last * (2 * m), last);
    lemma_div_multiples_vanish(2 * m, last);
    lemma_div_pos_is_pos(2 * m * k, last);
    assert(2 * m * last == last * (2 * m)) by (nonlinear_arith);
    assert(2 * h * 0 == 0);
    assert(2 * (-h) * 0 == 0);
}

/// The first frame of a table holds the sampled heights exactly and the last
/// frame their exact negation.
pub proof fn lemma_frames_endpoints(vertices: Seq<Vertex>, count: int, frames: Seq<Seq<i64>>, i: int)
    requires
        count >= 2,
        frames_of(vertices, count, frames),
        0 <= i < vertices.len(),
    ensures
        frames[0][i] == vertices[i].y,
        frames[count - 1][i] == -vertices[i].y,
{
    lemma_frame_height_bounds(vertices[i].y as int, 0, count - 1);
    lemma_frame_height_bounds(vertices[i].y as int, count - 1, count - 1);
    assert(frames[0][i] as int == frame_height(vertices[i].y as int, 0, count - 1));
    assert(frames[count - 1][i] as int == frame_height(vertices[i].y as int, count - 1, count - 1));
}

/// Height of `h` in frame `k` of a table whose last frame is `last`.
fn frame_height_of(h: i64, k: u32, last: u32) -> (r: i64)
    requires
        last >= 1,
        k <= last,
        h != i64::MIN,
    ensures
        r as int == frame_height(h as int, k as int, last as int),
{
    proof {
        lemma_frame_height_bounds(h as int, k as int, last as int);
    }
    let m: u128 = if h >= 0 {
        h as u128
    } else {
        (-h) as u128
    };
    assert(2 * m * k <= 2 * (i64::MAX as int) * (u32::MAX as int)) by (nonlinear_arith)
        requires
            m <= i64::MAX,
            k <= u32::MAX,
    ;
    let q: u128 = 2 * m * (k as u128) / (last as u128);
    if h >= 0 {
        (h as i128 - q as i128) as i64
    } else {
        (h as i128 + q as i128) as i64
    }
}

/// Builds the table of `frame_count` frames over the heights of `vertices`.
/// Frame `k` holds, for vertex `i`, `frame_height(y_i, k, frame_count - 1)`:
/// frame 0 is the sampled heights and the last frame their negation.
/// Fewer than two frames is an invalid configuration.
pub fn build_frames(vertices: &Vec<Vertex>, frame_count: u32) -> (r: Result<
    Vec<Vec<i64>>,
    ConfigError,
>)
    requires
        heights_negatable(vertices@),
    ensures
        r is Err <==> frame_count < 2,
        r is Err ==> r == Err::<Vec<Vec<i64>>, ConfigError>(ConfigError::InvalidConfiguration),
        r matches Ok(frames) ==> frames_of(
            vertices@,
            frame_count as int,
            frames@.map_values(|f: Vec<i64>| f@),
        ),
{
    if frame_count < 2 {
        return Err(ConfigError::InvalidConfiguration);
    }
    let last: u32 = frame_count - 1;
    let mut frames: Vec<Vec<i64>> = Vec::new();
    let mut k: u32 = 0;
    while k < frame_count
        invariant
            last == frame_count - 1,
            frame_count >= 2,
            heights_negatable(vertices@),
            k <= frame_count,
            frames@.len() == k,
            forall|j: int| 0 <= j < k ==> #[trigger] frames@[j]@.len() == vertices@.len(),
            forall|j: int, i: int|
                0 <= j < k && 0 <= i < vertices@.len() ==> #[trigger] frames@[j]@[i] as int
                    == frame_height(vertices@[i].y as int, j, last as int),
        decreases frame_count - k,
    {
        let mut frame: Vec<i64> = Vec::new();
        let mut i: usize = 0;
        while i < vertices.len()
            invariant
                last == frame_count - 1,
                frame_count >= 2,
                k < frame_count,
                heights_negatable(vertices@),
                i <= vertices@.len(),
                frame@.len() == i,
                forall|t: int|
                    0 <= t < i ==> #[trigger] frame@[t] as int == frame_height(
                        vertices@[t].y as int,
                        k as int,
                        last as int,
                    ),
            decreases vertices@.len() - i,
        {
            let h = frame_height_of(vertices[i].y, k, last);
            frame.push(h);
            i = i + 1;
        }
        frames.push(frame);
        k = k + 1;
    }
    let ghost view = frames@.map_values(|f: Vec<i64>| f@);
    assert(forall|j: int| 0 <= j < frame_count ==> view[j] == #[trigger] frames@[j]@);
    Ok(frames)
}

} // verus!

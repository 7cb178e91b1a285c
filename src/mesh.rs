//! The animated mesh: vertex buffer, index buffer, frame table and playback
//! cursor, and the per-tick decision of what to hand the renderer.
use vstd::prelude::*;
use crate::config::ConfigError;
use crate::frames::{build_frames, frames_of, heights_negatable};
use crate::grid::{build_grid, border_len, grid_fits, grid_len, vertex_at, Vertex};
use crate::indices::{build_indices, index_at, index_buffer_fits};
use crate::playback::{lemma_step_ok, playback_ok, playback_step};

verus! {

/// The abstract state of a `MeshData`.
pub struct MeshModel {
    pub vertices: Seq<Vertex>,
    pub is_spawn: bool,
    pub indices: Seq<u32>,
    pub frames: Seq<Seq<i64>>,
    pub current_frame: int,
    pub direction: int,
}

impl MeshModel {
    /// At least two frames, one height per vertex in each, and a cursor in a
    /// reachable state.
    pub open spec fn wf(self) -> bool {
        &&& 2 <= self.frames.len() <= u32::MAX
        &&& forall|k: int| 0 <= k < self.frames.len() ==> #[trigger] self.frames[k].len() == self.vertices.len()
        &&& playback_ok(self.current_frame, self.direction, self.frames.len() as int)
    }
}

/// `vertices` with the heights replaced by `heights`, the grid coordinates kept.
pub open spec fn with_heights(vertices: Seq<Vertex>, heights: Seq<i64>) -> Seq<Vertex> {
    Seq::new(
        vertices.len(),
        |i: int| Vertex { x: vertices[i].x, y: heights[i], z: vertices[i].z },
    )
}

/// The model after one oscillator advance: the live heights are those of the
/// current frame, and the cursor has taken one `playback_step`.
pub open spec fn advanced(m: MeshModel) -> MeshModel {
    let s = playback_step(m.current_frame, m.direction, m.frames.len() as int);
    MeshModel {
        vertices: with_heights(m.vertices, m.frames[m.current_frame]),
        current_frame: s.0,
        direction: s.1,
        ..m
    }
}

/// What the renderer is to do on a tick, besides showing the mesh as it stood
/// before the tick.
#[derive(Clone, Copy, Debug, PartialEq, Eq, Structural)]
pub enum WaveAction {
    /// The animation timer did not fire: nothing more.
    Idle,
    /// Show the mesh as it stood before the tick a second time.
    Republish,
    /// Show the mesh as it stood before the tick a second time, then discard
    /// all but the most recent meshes shown; the heights have advanced.
    RepublishAndPrune,
}

/// The terrain mesh and its wave animation.
pub struct MeshData {
    verticies: Vec<Vertex>,
    is_spawn: bool,
    indices: Vec<u32>,
    mash_frames: Vec<Vec<i64>>,
    current_frame: u32,
    frame_direction: i8,
}

impl View for MeshData {
    type V = MeshModel;

    closed spec fn view(&self) -> MeshModel {
        MeshModel {
            vertices: self.verticies@,
            is_spawn: self.is_spawn,
            indices: self.indices@,
            frames: self.mash_frames@.map_values(|f: Vec<i64>| f@),
            current_frame: self.current_frame as int,
            direction: self.frame_direction as int,
        }
    }
}

impl MeshData {
    /// The state is well formed.
    pub open spec fn wf(&self) -> bool {
        self@.wf()
    }

    /// Builds the mesh of a grid of `size x size` cells from the sampled
    /// heights of its points (row-major), its index buffer, and a table of
    /// `frame_count` frames; the cursor starts on frame 0 moving forward.
    /// An empty grid or fewer than two frames is an invalid configuration.
    pub fn setup(size: u32, heights: &Vec<i64>, frame_count: u32) -> (r: Result<
        MeshData,
        ConfigError,
    >)
        requires
            grid_fits(size as nat),
            index_buffer_fits(size as nat),
            heights@.len() == grid_len(size as nat),
            forall|i: int| 0 <= i < heights@.len() ==> heights@[i] != i64::MIN,
        ensures
            r is Err <==> (size == 0 || frame_count < 2),
            r is Err ==> r == Err::<MeshData, ConfigError>(ConfigError::InvalidConfiguration),
            r matches Ok(m) ==> {
                &&& m.wf()
                &&& m@.vertices.len() == grid_len(size as nat) + border_len(size as nat)
                &&& forall|p: int|
                    0 <= p < m@.vertices.len() ==> #[trigger] m@.vertices[p] == vertex_at(
                        size as nat,
                        heights@,
                        p,
                    )
                &&& m@.indices.len() == 6 * size * size
                &&& forall|p: int|
                    0 <= p < m@.indices.len() ==> #[trigger] m@.indices[p] as int == index_at(
                        size as int,
                        p,
                    )
                &&& frames_of(m@.vertices, frame_count as int, m@.frames)
                &&& m@.current_frame == 0
                &&& m@.direction == 1
                &&& m@.is_spawn
            },
    {
        if size == 0 || frame_count < 2 {
            return Err(ConfigError::InvalidConfiguration);
        }
        let verticies = build_grid(size, heights);
        assert(heights_negatable(verticies@)) by {
            assert forall|i: int| 0 <= i < verticies@.len() implies verticies@[i].y != i64::MIN by {
                assert(verticies@[i] == vertex_at(size as nat, heights@, i));
            }
        }
        let indices = build_indices(size);
        let mash_frames = match build_frames(&verticies, frame_count) {
            Ok(f) => f,
            Err(e) => {
                return Err(e);
            },
        };
        let m = MeshData {
            verticies,
            is_spawn: true,
            indices,
            mash_frames,
            current_frame: 0,
            frame_direction: 1,
        };
        assert(forall|k: int| 0 <= k < frame_count ==> #[trigger] m@.frames[k].len() == m@.vertices.len());
        Ok(m)
    }

    /// The live vertex buffer.
    pub fn vertices(&self) -> (r: &Vec<Vertex>)
        ensures
            r@ == self@.vertices,
    {
        &self.verticies
    }

    /// The triangle index buffer.
    pub fn indices(&self) -> (r: &Vec<u32>)
        ensures
            r@ == self@.indices,
    {
        &self.indices
    }

    /// The frame table.
    pub fn frames(&self) -> (r: &Vec<Vec<i64>>)
        ensures
            r@.map_values(|f: Vec<i64>| f@) == self@.frames,
    {
        &self.mash_frames
    }

    /// The frame whose heights the next advance applies.
    pub fn current_frame(&self) -> (r: u32)
        ensures
            r as int == self@.current_frame,
    {
        self.current_frame
    }

    /// The cursor's direction: `1` forward, `-1` backward.
    pub fn frame_direction(&self) -> (r: i8)
        ensures
            r as int == self@.direction,
    {
        self.frame_direction
    }

    /// Whether the next timer tick only republishes the mesh.
    pub fn is_spawn(&self) -> (r: bool)
        ensures
            r == self@.is_spawn,
    {
        self.is_spawn
    }

    /// Advances the oscillator once: the live heights become those of the
    /// current frame, then the cursor moves one frame in its direction and
    /// reverses on reaching the first or the last frame.
    pub fn advance_frame(&mut self)
        requires
            old(self).wf(),
        ensures
            final(self).wf(),
            final(self)@ == advanced(old(self)@),
    {
        let ghost m = self@;
        let cur = self.current_frame as usize;
        let mut new_verticies: Vec<Vertex> = Vec::new();
        let mut i: usize = 0;
        assert(self.mash_frames@[cur as int]@ == m.frames[cur as int]);
        while i < self.verticies.len()
            invariant
                m == self@,
                m.wf(),
                cur == m.current_frame,
                self.mash_frames@[cur as int]@ == m.frames[cur as int],
                i <= self.verticies@.len(),
                new_verticies@.len() == i,
                forall|t: int|
                    0 <= t < i ==> #[trigger] new_verticies@[t] == with_heights(
                        m.vertices,
                        m.frames[cur as int],
                    )[t],
            decreases self.verticies@.len() - i,
        {
            assert(m.frames[cur as int].len() == m.vertices.len());
            let v = self.verticies[i];
            let y = self.mash_frames[cur][i];
            new_verticies.push(Vertex { x: v.x, y, z: v.z });
            i = i + 1;
        }
        self.verticies = new_verticies;
        self.advance_playback();
        assert(self@.vertices =~= advanced(m).vertices);
    }

    /// Moves the cursor one frame in its direction, reversing it on reaching
    /// the first or the last frame; the heights are left as they are.
    pub fn advance_playback(&mut self)
        requires
            old(self).wf(),
        ensures
            final(self).wf(),
            final(self)@ == (MeshModel {
                current_frame: playback_step(
                    old(self)@.current_frame,
                    old(self)@.direction,
                    old(self)@.frames.len() as int,
                ).0,
                direction: playback_step(
                    old(self)@.current_frame,
                    old(self)@.direction,
                    old(self)@.frames.len() as int,
                ).1,
                ..old(self)@
            }),
    {
        proof {
            lemma_step_ok(self@.current_frame, self@.direction, self@.frames.len() as int);
        }
        let last = self.mash_frames.len() - 1;
        if self.frame_direction == 1 {
            self.current_frame = self.current_frame + 1;
        } else {
            self.current_frame = self.current_frame - 1;
        }
        if self.current_frame as usize == last || self.current_frame == 0 {
            self.frame_direction = -self.frame_direction;
        }
    }
}

/// One render tick. When the animation timer fires, ticks alternate between
/// republishing the mesh and advancing the oscillator (then republishing and
/// pruning), so the heights advance once every second firing.
pub fn wave_effect(mesh_data: &mut MeshData, timer_finished: bool) -> (r: WaveAction)
    requires
        old(mesh_data).wf(),
    ensures
        final(mesh_data).wf(),
        !timer_finished ==> r == WaveAction::Idle && *final(mesh_data) == *old(mesh_data),
        timer_finished && old(mesh_data)@.is_spawn ==> r == WaveAction::Republish
            && final(mesh_data)@ == (MeshModel { is_spawn: false, ..old(mesh_data)@ }),
        timer_finished && !old(mesh_data)@.is_spawn ==> r == WaveAction::RepublishAndPrune
            && final(mesh_data)@ == (MeshModel { is_spawn: true, ..advanced(old(mesh_data)@) }),
{
    if !timer_finished {
        return WaveAction::Idle;
    }
    if mesh_data.is_spawn {
        mesh_data.is_spawn = false;
        WaveAction::Republish
    } else {
        mesh_data.advance_frame();
        mesh_data.is_spawn = true;
        WaveAction::RepublishAndPrune
    }
}

} // verus!

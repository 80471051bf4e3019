use vstd::prelude::*;

verus! {

/// Animation indices: idle plus one walking clip per direction.
pub const ANIM_IDLE: usize = 0;

pub const ANIM_WALK_NORTH: usize = 1;

pub const ANIM_WALK_WEST: usize = 2;

pub const ANIM_WALK_SOUTH: usize = 3;

pub const ANIM_WALK_EAST: usize = 4;

/// One animation clip: a sprite-sheet row, a frame count, and a playback
/// rate in frames per second.
#[derive(Clone, Copy, PartialEq, Eq, Structural, Debug)]
pub struct Clip {
    pub row: u32,
    pub frames: u32,
    pub fps: u32,
}

/// The five clips of the character's sprite sheet, by animation index:
/// idle, then the four walking directions.
pub fn animation_clips() -> (r: Vec<Clip>)
    ensures
        r@.len() == 5,
        r@[ANIM_IDLE as int] == (Clip { row: 24, frames: 2, fps: 3 }),
        r@[ANIM_WALK_NORTH as int] == (Clip { row: 8, frames: 9, fps: 8 }),
        r@[ANIM_WALK_WEST as int] == (Clip { row: 9, frames: 9, fps: 8 }),
        r@[ANIM_WALK_SOUTH as int] == (Clip { row: 10, frames: 9, fps: 8 }),
        r@[ANIM_WALK_EAST as int] == (Clip { row: 11, frames: 9, fps: 8 }),
{
    let mut r: Vec<Clip> = Vec::new();
    r.push(Clip { row: 24, frames: 2, fps: 3 });
    r.push(Clip { row: 8, frames: 9, fps: 8 });
    r.push(Clip { row: 9, frames: 9, fps: 8 });
    r.push(Clip { row: 10, frames: 9, fps: 8 });
    r.push(Clip { row: 11, frames: 9, fps: 8 });
    r
}

/// A held direction code joins the buffer only if it is not already in it.
pub open spec fn press_spec(s: Seq<u8>, held: bool, c: u8) -> Seq<u8> {
    if held && !s.contains(c) {
        s.push(c)
    } else {
        s
    }
}

/// A released direction code leaves the buffer.
pub open spec fn release_spec(s: Seq<u8>, released: bool, c: u8) -> Seq<u8> {
    if released {
        s.remove_value(c)
    } else {
        s
    }
}

/// Buffer contents after one frame of key events: the four directions are
/// first added for keys newly observed held (north, west, south, east in
/// that order), then removed for keys released this frame.
pub open spec fn buffer_update_spec(
    s: Seq<u8>,
    w: bool,
    a: bool,
    sk: bool,
    d: bool,
    wr: bool,
    ar: bool,
    sr: bool,
    dr: bool,
) -> Seq<u8> {
    let s1 = press_spec(press_spec(press_spec(press_spec(s, w, 1), a, 2), sk, 3), d, 4);
    release_spec(release_spec(release_spec(release_spec(s1, wr, 1), ar, 2), sr, 3), dr, 4)
}

/// The ordered, duplicate-free record of currently held movement
/// directions; the most recently added decides which walking animation
/// plays.
pub struct AnimBuffer {
    pub codes: Vec<u8>,
}

impl AnimBuffer {
    pub open spec fn wf(self) -> bool {
        &&& forall|k: int| 0 <= k < self.codes@.len() ==> 1 <= #[trigger] self.codes@[k] <= 4
        &&& forall|k1: int, k2: int|
            0 <= k1 < k2 < self.codes@.len() ==> self.codes@[k1] != self.codes@[k2]
    }

    pub fn new() -> (r: AnimBuffer)
        ensures
            r.wf(),
            r.codes@.len() == 0,
    {
        AnimBuffer { codes: Vec::new() }
    }

    /// Records a direction key observed held this frame.
    fn press(&mut self, code: u8)
        requires
            old(self).wf(),
            1 <= code <= 4,
        ensures
            final(self).wf(),
            final(self).codes@ == press_spec(old(self).codes@, true, code),
    {
        match find_code(&self.codes, code) {
            Some(_) => {
                proof {
                    assert(self.codes@.contains(code));
                }
            },
            None => {
                proof {
                    assert(!self.codes@.contains(code));
                }
                self.codes.push(code);
            },
        }
    }

    /// Records a direction key released this frame.
    fn release(&mut self, code: u8)
        requires
            old(self).wf(),
            1 <= code <= 4,
        ensures
            final(self).wf(),
            final(self).codes@ == release_spec(old(self).codes@, true, code),
    {
        let ghost s = self.codes@;
        match find_code(&self.codes, code) {
            Some(i) => {
                self.codes.remove(i);
                proof {
                    s.index_of_first_ensures(code);
                    assert(s.index_of_first(code) == Some(i as int));
                    s.remove_ensures(i as int);
                }
            },
            None => {
                proof {
                    s.index_of_first_ensures(code);
                }
            },
        }
    }

    /// Applies one frame of key events: newly held directions are added
    /// in the order north, west, south, east, then released ones are
    /// removed.
    pub fn update(
        &mut self,
        w_held: bool,
        a_held: bool,
        s_held: bool,
        d_held: bool,
        w_released: bool,
        a_released: bool,
        s_released: bool,
        d_released: bool,
    )
        requires
            old(self).wf(),
        ensures
            final(self).wf(),
            final(self).codes@ == buffer_update_spec(
                old(self).codes@,
                w_held,
                a_held,
                s_held,
                d_held,
                w_released,
                a_released,
                s_released,
                d_released,
            ),
    {
        if w_held {
            self.press(1);
        }
        if a_held {
            self.press(2);
        }
        if s_held {
            self.press(3);
        }
        if d_held {
            self.press(4);
        }
        if w_released {
            self.release(1);
        }
        if a_released {
            self.release(2);
        }
        if s_released {
            self.release(3);
        }
        if d_released {
            self.release(4);
        }
    }

    /// The most recently added direction still held, if any.
    pub fn last_added(&self) -> (r: Option<u8>)
        ensures
            self.codes@.len() == 0 ==> r is None,
            self.codes@.len() > 0 ==> r == Some(self.codes@.last()),
    {
        if self.codes.len() > 0 {
            Some(self.codes[self.codes.len() - 1])
        } else {
            None
        }
    }
}

/// Index of the first occurrence of `code`, scanning from the front.
fn find_code(codes: &Vec<u8>, code: u8) -> (r: Option<usize>)
    ensures
        match r {
            Some(i) => i < codes@.len() && codes@[i as int] == code && forall|k: int|
                0 <= k < i ==> codes@[k] != code,
            None => forall|k: int| 0 <= k < codes@.len() ==> codes@[k] != code,
        },
{
    let mut j: usize = 0;
    while j < codes.len()
        invariant
            j <= codes@.len(),
            forall|k: int| 0 <= k < j ==> codes@[k] != code,
        decreases codes@.len() - j,
    {
        if codes[j] == code {
            return Some(j);
        }
        j = j + 1;
    }
    None
}

/// The animation the engine is asked to play and the frame it points at;
/// a model of the sprite's mutable playback state.
#[derive(Clone, Copy, PartialEq, Eq, Structural, Debug)]
pub struct SpriteState {
    pub animation: usize,
    pub frame: usize,
}

/// Playback state after one frame of selection: the most recently added
/// held direction wins and a switch restarts its clip at frame 1; with
/// nothing held, idle restarts at frame 0; and a walking clip is never
/// left pointing at frame 0.
pub open spec fn animation_step_spec(st: SpriteState, buf: Seq<u8>) -> SpriteState {
    let selected = if buf.len() > 0 {
        let last = buf.last();
        if st.animation != last {
            SpriteState { animation: last as usize, frame: 1 }
        } else {
            st
        }
    } else {
        if st.animation != 0 {
            SpriteState { animation: 0, frame: 0 }
        } else {
            st
        }
    };
    if 1 <= selected.animation <= 4 && selected.frame == 0 {
        SpriteState { animation: selected.animation, frame: 1 }
    } else {
        selected
    }
}

impl SpriteState {
    pub fn new() -> (r: SpriteState)
        ensures
            r == (SpriteState { animation: 0, frame: 0 }),
    {
        SpriteState { animation: 0, frame: 0 }
    }

    /// Selects the animation for one frame from the input buffer: switch
    /// to the most recently added held direction (restarting at frame 1),
    /// fall back to idle when nothing is held, and skip frame 0 of every
    /// walking clip.
    pub fn animation_step(&mut self, buf: &AnimBuffer)
        requires
            buf.wf(),
        ensures
            *final(self) == animation_step_spec(*old(self), buf.codes@),
            // the most recently added direction wins
            buf.codes@.len() > 0 ==> final(self).animation == buf.codes@.last(),
            // nothing held selects idle
            buf.codes@.len() == 0 ==> final(self).animation == 0,
            // a walking animation never shows frame 0
            1 <= final(self).animation <= 4 ==> final(self).frame >= 1,
    {
        match buf.last_added() {
            Some(last) => {
                if self.animation != last as usize {
                    self.animation = last as usize;
                    self.frame = 1;
                }
            },
            None => {
                if self.animation != 0 {
                    self.animation = 0;
                    self.frame = 0;
                }
            },
        }
        if 1 <= self.animation && self.animation <= 4 && self.frame == 0 {
            self.frame = 1;
        }
        proof {
            if buf.codes@.len() > 0 {
                assert(buf.wf());
                assert(1 <= buf.codes@[buf.codes@.len() - 1] <= 4);
            }
        }
    }
}

} // verus!

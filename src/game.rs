//! The game facts that are tracked, where they live in memory, and the
//! snapshot that one tick of reading produces.
use crate::variable::{next_pair, Pair, Variable};
use vstd::prelude::*;
use vstd::string::StringSliceAdditionalSpecFns;
use vstd::utf8::valid_utf8;

verus! {

/// Base address of the game's executable image.
pub const BASE_ADDRESS: u32 = 0x400000;

/// Offset of the global that points at the game object.
pub const GAME_OBJECT: u32 = 0x286AB4;

/// Offset of the variable table inside the game object.
pub const VARIABLE_TABLE: u32 = 0x4;

/// Offset of the current map id.
pub const MAP_ID_OFFSET: u32 = 0x4452FC;

/// The outcome of this tick's read of every tracked fact; `None` where a
/// read failed. Numbers are binary64 bit patterns.
#[derive(Clone, Copy, PartialEq, Eq, Debug)]
pub struct Readings {
    pub map_id: Option<i32>,
    pub game_progress: Option<u64>,
    pub program_chips: Option<u64>,
    pub game_percent: Option<u64>,
    pub game_completed: Option<u64>,
    pub token_recognitions: Option<[u8; 50]>,
    pub token_recognitions_two: Option<[u8; 50]>,
    pub in_cutscene: Option<u64>,
    pub in_game_over: Option<u64>,
    pub is_paused: Option<u64>,
    pub current_boss: Option<[u8; 100]>,
    pub boss_track: Option<u64>,
    pub boss_gallery: Option<u64>,
}

impl Readings {
    /// Every read that a tick cannot do without succeeded (the boss name may fail).
    pub open spec fn complete(&self) -> bool {
        &&& self.map_id is Some
        &&& self.game_progress is Some
        &&& self.program_chips is Some
        &&& self.game_percent is Some
        &&& self.game_completed is Some
        &&& self.token_recognitions is Some
        &&& self.token_recognitions_two is Some
        &&& self.in_cutscene is Some
        &&& self.in_game_over is Some
        &&& self.is_paused is Some
        &&& self.boss_track is Some
        &&& self.boss_gallery is Some
    }
}

/// The change-tracked pairs of one tick. Numbers are binary64 bit patterns.
#[derive(Clone, Copy, PartialEq, Eq, Debug)]
pub struct Variables {
    /// The game's internal room id.
    pub map_id: Pair<i32>,
    /// Progress counter that marks story events.
    pub game_progress: Pair<u64>,
    /// Number of program chips collected.
    pub program_chips: Pair<u64>,
    /// Percentage of items found.
    pub game_percent: Pair<u64>,
    /// 1.0 once the game has been completed.
    pub game_completed: Pair<u64>,
    /// Achievements, first part: one byte per token, `0x31` when achieved.
    pub token_recognitions: Pair<[u8; 50]>,
    /// Achievements, second part.
    pub token_recognitions_two: Pair<[u8; 50]>,
    /// 1.0 during a cutscene.
    pub in_cutscene: Pair<u64>,
    /// 1.0 on the game over screen.
    pub in_game_over: Pair<u64>,
    /// 1.0 while the game is paused.
    pub is_paused: Pair<u64>,
    /// The NUL-terminated name of the current boss; `None` when it could not be read.
    pub current_boss: Option<Pair<[u8; 100]>>,
    /// 0 with no boss, positive while fighting one.
    pub boss_track: Pair<u64>,
    /// 1.0 inside the boss gallery.
    pub boss_gallery: Pair<u64>,
}

/// The cells of every tracked fact.
pub struct State {
    pub map_id: Variable<i32>,
    pub game_progress: Variable<u64>,
    pub program_chips: Variable<u64>,
    pub game_percent: Variable<u64>,
    pub game_completed: Variable<u64>,
    pub token_recognitions: Variable<[u8; 50]>,
    pub token_recognitions_two: Variable<[u8; 50]>,
    pub in_cutscene: Variable<u64>,
    pub in_game_over: Variable<u64>,
    pub is_paused: Variable<u64>,
    pub current_boss: Variable<[u8; 100]>,
    pub boss_track: Variable<u64>,
    pub boss_gallery: Variable<u64>,
}

/// `after` is `before` once `read` has been taken.
pub open spec fn stepped<T: Copy>(before: Variable<T>, after: Variable<T>, read: Option<T>) -> bool {
    &&& after.pair() == next_pair(before.pair(), read)
    &&& after.base() == before.base()
    &&& after.path() == before.path()
}

/// The path of a value in the game's variable table.
pub open spec fn table_path(field: u32) -> Seq<u32> {
    seq![GAME_OBJECT, VARIABLE_TABLE, field]
}

/// The path of a byte buffer that a variable-table entry points at.
pub open spec fn buffer_path(field: u32) -> Seq<u32> {
    seq![GAME_OBJECT, VARIABLE_TABLE, field, 0]
}

fn table_variable<T: Copy>(field: u32) -> (r: Variable<T>)
    ensures
        r.pair() is None,
        r.base() == BASE_ADDRESS,
        r.path() == table_path(field),
{
    let mut path: Vec<u32> = Vec::new();
    path.push(GAME_OBJECT);
    path.push(VARIABLE_TABLE);
    path.push(field);
    assert(path@ =~= table_path(field));
    Variable::new(BASE_ADDRESS, path)
}

fn buffer_variable<T: Copy>(field: u32) -> (r: Variable<T>)
    ensures
        r.pair() is None,
        r.base() == BASE_ADDRESS,
        r.path() == buffer_path(field),
{
    let mut path: Vec<u32> = Vec::new();
    path.push(GAME_OBJECT);
    path.push(VARIABLE_TABLE);
    path.push(field);
    path.push(0);
    assert(path@ =~= buffer_path(field));
    Variable::new(BASE_ADDRESS, path)
}

impl State {
    /// The pairs of all cells, the boss name present when its read succeeded.
    pub open spec fn snapshot(&self, boss_read: bool) -> Variables {
        Variables {
            map_id: self.map_id.pair()->0,
            game_progress: self.game_progress.pair()->0,
            program_chips: self.program_chips.pair()->0,
            game_percent: self.game_percent.pair()->0,
            game_completed: self.game_completed.pair()->0,
            token_recognitions: self.token_recognitions.pair()->0,
            token_recognitions_two: self.token_recognitions_two.pair()->0,
            in_cutscene: self.in_cutscene.pair()->0,
            in_game_over: self.in_game_over.pair()->0,
            is_paused: self.is_paused.pair()->0,
            current_boss: if boss_read {
                self.current_boss.pair()
            } else {
                None
            },
            boss_track: self.boss_track.pair()->0,
            boss_gallery: self.boss_gallery.pair()->0,
        }
    }

    /// Takes one tick's readings. When a read other than the boss name
    /// failed, nothing changes and there is no snapshot; otherwise every cell
    /// takes its reading and the snapshot of the updated pairs is returned.
    pub fn update(&mut self, reads: &Readings) -> (r: Option<Variables>)
        ensures
            r is Some <==> reads.complete(),
            !reads.complete() ==> *final(self) == *old(self),
            reads.complete() ==> {
                &&& stepped(old(self).map_id, final(self).map_id, reads.map_id)
                &&& stepped(old(self).game_progress, final(self).game_progress, reads.game_progress)
                &&& stepped(old(self).program_chips, final(self).program_chips, reads.program_chips)
                &&& stepped(old(self).game_percent, final(self).game_percent, reads.game_percent)
                &&& stepped(
                    old(self).game_completed,
                    final(self).game_completed,
                    reads.game_completed,
                )
                &&& stepped(
                    old(self).token_recognitions,
                    final(self).token_recognitions,
                    reads.token_recognitions,
                )
                &&& stepped(
                    old(self).token_recognitions_two,
                    final(self).token_recognitions_two,
                    reads.token_recognitions_two,
                )
                &&& stepped(old(self).in_cutscene, final(self).in_cutscene, reads.in_cutscene)
                &&& stepped(old(self).in_game_over, final(self).in_game_over, reads.in_game_over)
                &&& stepped(old(self).is_paused, final(self).is_paused, reads.is_paused)
                &&& stepped(old(self).current_boss, final(self).current_boss, reads.current_boss)
                &&& stepped(old(self).boss_track, final(self).boss_track, reads.boss_track)
                &&& stepped(old(self).boss_gallery, final(self).boss_gallery, reads.boss_gallery)
                &&& r == Some(final(self).snapshot(reads.current_boss is Some))
            },
    {
        if reads.map_id.is_none() || reads.game_progress.is_none() || reads.program_chips.is_none()
            || reads.game_percent.is_none() || reads.game_completed.is_none()
            || reads.token_recognitions.is_none() || reads.token_recognitions_two.is_none()
            || reads.in_cutscene.is_none() || reads.in_game_over.is_none()
            || reads.is_paused.is_none() || reads.boss_track.is_none()
            || reads.boss_gallery.is_none() {
            return None;
        }
        let map_id = self.map_id.update(reads.map_id).unwrap();
        let game_progress = self.game_progress.update(reads.game_progress).unwrap();
        let program_chips = self.program_chips.update(reads.program_chips).unwrap();
        let game_percent = self.game_percent.update(reads.game_percent).unwrap();
        let game_completed = self.game_completed.update(reads.game_completed).unwrap();
        let token_recognitions = self.token_recognitions.update(reads.token_recognitions).unwrap();
        let token_recognitions_two = self.token_recognitions_two.update(
            reads.token_recognitions_two,
        ).unwrap();
        let in_cutscene = self.in_cutscene.update(reads.in_cutscene).unwrap();
        let in_game_over = self.in_game_over.update(reads.in_game_over).unwrap();
        let is_paused = self.is_paused.update(reads.is_paused).unwrap();
        let current_boss = self.current_boss.update(reads.current_boss);
        let boss_track = self.boss_track.update(reads.boss_track).unwrap();
        let boss_gallery = self.boss_gallery.update(reads.boss_gallery).unwrap();
        Some(
            Variables {
                map_id,
                game_progress,
                program_chips,
                game_percent,
                game_completed,
                token_recognitions,
                token_recognitions_two,
                in_cutscene,
                in_game_over,
                is_paused,
                current_boss,
                boss_track,
                boss_gallery,
            },
        )
    }
}

impl Default for State {
    /// Every cell unread, at its place in the game's memory.
    fn default() -> (r: Self)
        ensures
            r.map_id.pair() is None && r.map_id.base() == BASE_ADDRESS,
            r.map_id.path() == seq![MAP_ID_OFFSET],
            r.game_progress.pair() is None && r.game_progress.path() == table_path(0x4890),
            r.program_chips.pair() is None && r.program_chips.path() == table_path(0x48B8),
            r.game_percent.pair() is None && r.game_percent.path() == table_path(0x48E0),
            r.game_completed.pair() is None && r.game_completed.path() == table_path(0x5498),
            r.token_recognitions.pair() is None && r.token_recognitions.path() == buffer_path(
                0x54C8,
            ),
            r.token_recognitions_two.pair() is None && r.token_recognitions_two.path()
                == buffer_path(0x54F0),
            r.in_cutscene.pair() is None && r.in_cutscene.path() == table_path(0x4CA0),
            r.in_game_over.pair() is None && r.in_game_over.path() == table_path(0x4C50),
            r.is_paused.pair() is None && r.is_paused.path() == table_path(0x6A50),
            r.current_boss.pair() is None && r.current_boss.path() == buffer_path(0x4D98),
            r.boss_track.pair() is None && r.boss_track.path() == table_path(0x4DB8),
            r.boss_gallery.pair() is None && r.boss_gallery.path() == table_path(0x5240),
    {
        let mut map_path: Vec<u32> = Vec::new();
        map_path.push(MAP_ID_OFFSET);
        assert(map_path@ =~= seq![MAP_ID_OFFSET]);
        State {
            map_id: Variable::new(BASE_ADDRESS, map_path),
            game_progress: table_variable(0x4890),
            program_chips: table_variable(0x48B8),
            game_percent: table_variable(0x48E0),
            game_completed: table_variable(0x5498),
            token_recognitions: buffer_variable(0x54C8),
            token_recognitions_two: buffer_variable(0x54F0),
            in_cutscene: table_variable(0x4CA0),
            in_game_over: table_variable(0x4C50),
            is_paused: table_variable(0x6A50),
            current_boss: buffer_variable(0x4D98),
            boss_track: table_variable(0x4DB8),
            boss_gallery: table_variable(0x5240),
        }
    }
}

/// The length of the text in a NUL-terminated buffer: the index of the
/// first NUL byte, or the whole buffer when there is none.
pub open spec fn text_len(b: Seq<u8>) -> nat
    decreases b.len(),
{
    if b.len() == 0 || b[0] == 0 {
        0
    } else {
        1 + text_len(b.drop_first())
    }
}

/// The bytes of a NUL-terminated buffer before its terminator.
pub open spec fn text_bytes(b: Seq<u8>) -> Seq<u8> {
    b.take(text_len(b) as int)
}

proof fn lemma_text_len_bound(b: Seq<u8>)
    ensures
        text_len(b) <= b.len(),
    decreases b.len(),
{
    if b.len() > 0 {
        lemma_text_len_bound(b.drop_first());
    }
}

proof fn lemma_text_len(b: Seq<u8>, p: int)
    requires
        0 <= p <= b.len(),
        forall|j: int| 0 <= j < p ==> b[j] != 0,
        p < b.len() ==> b[p] == 0,
    ensures
        text_len(b) == p,
    decreases p,
{
    if p > 0 {
        let t = b.drop_first();
        assert forall|j: int| 0 <= j < p - 1 implies t[j] != 0 by {
            assert(t[j] == b[j + 1]);
        }
        if p - 1 < t.len() {
            assert(t[p - 1] == b[p]);
        }
        lemma_text_len(t, p - 1);
    }
}

/// Relies on std::str::from_utf8: it succeeds exactly on valid UTF-8 and
/// then returns the same bytes as text.
#[verifier::external_body]
fn str_from_utf8(v: &[u8]) -> (r: Option<&str>)
    ensures
        match r {
            Some(s) => valid_utf8(v@) && s.spec_bytes() == v@,
            None => !valid_utf8(v@),
        },
{
    std::str::from_utf8(v).ok()
}

impl Variables {
    /// The text of a NUL-terminated buffer, if it is valid UTF-8.
    pub fn get_as_string(var: &[u8]) -> (r: Option<&str>)
        ensures
            match r {
                Some(s) => valid_utf8(text_bytes(var@)) && s.spec_bytes() == text_bytes(var@),
                None => !valid_utf8(text_bytes(var@)),
            },
    {
        let mut i: usize = 0;
        while i < var.len() && var[i] != 0
            invariant
                0 <= i <= var@.len(),
                forall|j: int| 0 <= j < i ==> var@[j] != 0,
            decreases var@.len() - i,
        {
            i = i + 1;
        }
        proof {
            lemma_text_len(var@, i as int);
        }
        let text = vstd::slice::slice_subrange(var, 0, i);
        assert(text@ =~= text_bytes(var@));
        str_from_utf8(text)
    }
}

/// A boss name is shown: the buffer's text is valid and not empty.
pub open spec fn names_boss(b: Seq<u8>) -> bool {
    valid_utf8(text_bytes(b)) && text_bytes(b).len() > 0
}

/// Whether a boss-name buffer holds a name.
pub fn has_boss_name(buffer: &[u8; 100]) -> (r: bool)
    ensures
        r == names_boss(buffer@),
{
    let bytes = buffer.as_slice();
    assert(bytes@ == buffer@);
    proof {
        lemma_text_len_bound(buffer@);
    }
    match Variables::get_as_string(bytes) {
        Some(s) => {
            s.len() != 0
        },
        None => false,
    }
}

/// Byte-for-byte equality of two buffers.
pub fn bytes_equal(a: &[u8], b: &[u8]) -> (r: bool)
    ensures
        r == (a@ == b@),
{
    if a.len() != b.len() {
        return false;
    }
    let mut i: usize = 0;
    while i < a.len()
        invariant
            a@.len() == b@.len(),
            0 <= i <= a@.len(),
            forall|j: int| 0 <= j < i ==> a@[j] == b@[j],
        decreases a@.len() - i,
    {
        if a[i] != b[i] {
            return false;
        }
        i = i + 1;
    }
    assert(a@ =~= b@);
    true
}

} // verus!

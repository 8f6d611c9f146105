use vstd::prelude::*;
use vstd::string::StrSliceExecFns;

verus! {

/// Number of `f32` values per squad record in the flat snapshot buffer.
pub const SQUAD_STRIDE: usize = 14;

/// Number of `f32` values in the flat buffer's header (the squad count).
pub const HEADER_SIZE: usize = 1;

/// Length of a flat buffer that holds `squad_count` squad records.
pub open spec fn buffer_len(squad_count: int) -> int {
    HEADER_SIZE as int + squad_count * SQUAD_STRIDE as int
}

/// Required buffer length for `squad_count` squads: the header plus one
/// fixed-stride record per squad.
pub fn calculate_buffer_size(squad_count: usize) -> (r: usize)
    requires
        buffer_len(squad_count as int) <= usize::MAX,
    ensures
        r as int == buffer_len(squad_count as int),
{
    HEADER_SIZE + squad_count * SQUAD_STRIDE
}

/// Offset of the first value of squad `squad_index` in the flat buffer.
pub fn squad_offset(squad_index: usize) -> (r: usize)
    requires
        buffer_len(squad_index as int) <= usize::MAX,
    ensures
        r as int == buffer_len(squad_index as int),
{
    HEADER_SIZE + squad_index * SQUAD_STRIDE
}

/// Offsets of the fields within a squad record.
pub const FIELD_ID: usize = 0;
pub const FIELD_X: usize = 1;
pub const FIELD_Y: usize = 2;
pub const FIELD_VX: usize = 3;
pub const FIELD_VY: usize = 4;
pub const FIELD_FACTION: usize = 5;
pub const FIELD_SIZE: usize = 6;
pub const FIELD_HEALTH: usize = 7;
pub const FIELD_HEALTH_MAX: usize = 8;
pub const FIELD_MORALE: usize = 9;
pub const FIELD_SUPPRESSION: usize = 10;
pub const FIELD_IS_ALIVE: usize = 11;
pub const FIELD_IS_ROUTING: usize = 12;
pub const FIELD_ORDER_TYPE: usize = 13;

/// The records of consecutive squads tile the buffer: each starts where the
/// previous one ends, and a buffer for `n` squads ends where record `n` would start.
pub proof fn lemma_records_tile(n: int, i: int)
    requires
        0 <= i < n,
    ensures
        buffer_len(i + 1) == buffer_len(i) + SQUAD_STRIDE,
        buffer_len(i) + FIELD_ORDER_TYPE < buffer_len(n),
        buffer_len(0) == HEADER_SIZE,
{
    assert(buffer_len(i) + FIELD_ORDER_TYPE < buffer_len(n)) by (nonlinear_arith)
        requires
            0 <= i < n,
            buffer_len(i) == 1 + i * 14,
            buffer_len(n) == 1 + n * 14,
    ;
}

/// Whether `s` begins with `p`.
pub open spec fn has_prefix(s: Seq<char>, p: Seq<char>) -> bool {
    p.len() <= s.len() && s.subrange(0, p.len() as int) == p
}

fn starts_with(s: &str, p: &str) -> (r: bool)
    ensures
        r == has_prefix(s@, p@),
{
    let n = s.unicode_len();
    let m = p.unicode_len();
    if m > n {
        return false;
    }
    let mut i: usize = 0;
    while i < m
        invariant
            n == s@.len(),
            m == p@.len(),
            m <= n,
            i <= m,
            forall|k: int| 0 <= k < i ==> s@[k] == p@[k],
        decreases m - i,
    {
        if s.get_char(i) != p.get_char(i) {
            assert(s@.subrange(0, m as int)[i as int] != p@[i as int]);
            return false;
        }
        i = i + 1;
    }
    assert(s@.subrange(0, m as int) =~= p@);
    true
}

fn same_text(a: &str, b: &str) -> (r: bool)
    ensures
        r == (a@ == b@),
{
    let equal = a.unicode_len() == b.unicode_len() && starts_with(a, b);
    proof {
        if a@.len() == b@.len() && has_prefix(a@, b@) {
            assert(a@ =~= a@.subrange(0, b@.len() as int));
        }
        if a@ == b@ {
            assert(a@.subrange(0, b@.len() as int) =~= b@);
        }
    }
    equal
}

/// The order code of an order's snapshot text: `Hold` 0, `MoveTo(..)` 1,
/// `AttackMove(..)` 2, `Retreat` 3, and 0 for any other text.
pub open spec fn order_code_spec(order: Seq<char>) -> u8 {
    if order == "Hold"@ {
        0
    } else if has_prefix(order, "MoveTo"@) {
        1
    } else if has_prefix(order, "AttackMove"@) {
        2
    } else if order == "Retreat"@ {
        3
    } else {
        0
    }
}

/// Reads the order code of the flat buffer from an order's snapshot text.
pub fn order_code_of(order: &str) -> (r: u8)
    ensures
        r == order_code_spec(order@),
{
    if same_text(order, "Hold") {
        0
    } else if starts_with(order, "MoveTo") {
        1
    } else if starts_with(order, "AttackMove") {
        2
    } else if same_text(order, "Retreat") {
        3
    } else {
        0
    }
}

/// Reads the faction code of the flat buffer from a faction's snapshot
/// text: `Red` 1, `Blue` and any other text 0.
pub fn faction_code_of(faction: &str) -> (r: u8)
    ensures
        r == (if faction@ == "Red"@ {
            1u8
        } else {
            0u8
        }),
{
    if same_text(faction, "Red") {
        1
    } else {
        0
    }
}

} // verus!

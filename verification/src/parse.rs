//! Reading the lines of a snapshot.
//!
//! A snapshot comes as lines of text. The line of an entity holds eight
//! fields, divided by single spaces: the identity, the tag of the kind, the
//! column, the row, and four numbers. Blanks around a field do not count. A
//! number is written in decimal digits, with or without a sign, and fits
//! into 32 bits. What follows the eighth field is not read.

use vstd::prelude::*;
use crate::snapshot::{EntityKind, EntityRecord, SnapshotError};

verus! {

/// The byte that divides the fields of a line.
pub const SPACE: u8 = 32;

/// Number of fields in the line of an entity.
pub const FIELDS: usize = 8;

/// Whether the byte is a blank: a space, a tab, a line feed, a vertical tab,
/// a form feed or a carriage return.
pub open spec fn is_blank(b: u8) -> bool {
    b == 32 || (9 <= b <= 13)
}

/// Whether the byte is a decimal digit.
pub open spec fn is_digit(b: u8) -> bool {
    '0' as u8 <= b <= '9' as u8
}

/// The index of the first space at or behind `from`, or the length of the
/// line where there is none.
pub open spec fn field_end(line: Seq<u8>, from: int) -> int
    decreases line.len() - from,
{
    if from >= line.len() {
        line.len() as int
    } else if line[from] == SPACE {
        from
    } else {
        field_end(line, from + 1)
    }
}

/// The index at which the field `k` of the line begins. It lies behind the
/// end of the line where the line has no such field.
pub open spec fn field_start(line: Seq<u8>, k: nat) -> int
    decreases k,
{
    if k == 0 {
        0
    } else {
        field_end(line, field_start(line, (k - 1) as nat)) + 1
    }
}

/// Whether the line has a field `k`, counted from zero.
pub open spec fn has_field(line: Seq<u8>, k: nat) -> bool {
    field_start(line, k) <= line.len()
}

/// The field `k` of the line: what stands between two spaces, or between a
/// space and an end of the line.
pub open spec fn field(line: Seq<u8>, k: nat) -> Seq<u8> {
    line.subrange(field_start(line, k), field_end(line, field_start(line, k)))
}

/// The text without the blanks at its ends.
pub open spec fn trimmed(text: Seq<u8>) -> Seq<u8>
    decreases text.len(),
{
    if text.len() > 0 && is_blank(text[0]) {
        trimmed(text.drop_first())
    } else if text.len() > 0 && is_blank(text.last()) {
        trimmed(text.drop_last())
    } else {
        text
    }
}

/// The value of the decimal digits of `text` from `from` up to, but not
/// including, `to`.
pub open spec fn decimal(text: Seq<u8>, from: int, to: int) -> int
    decreases to - from,
{
    if to <= from {
        0
    } else {
        decimal(text, from, to - 1) * 10 + (text[to - 1] - '0' as u8)
    }
}

/// Where the digits of a number begin: behind the sign, if there is one.
pub open spec fn digits_start(text: Seq<u8>) -> int {
    if text.len() > 0 && (text[0] == '+' as u8 || text[0] == '-' as u8) {
        1
    } else {
        0
    }
}

/// The number that the text stands for: an optional sign and at least one
/// decimal digit, with a value that fits into 32 bits.
pub open spec fn number(text: Seq<u8>) -> Option<int> {
    let start = digits_start(text);
    let value = decimal(text, start, text.len() as int);
    let signed = if text.len() > 0 && text[0] == '-' as u8 {
        -value
    } else {
        value
    };
    if text.len() <= start {
        None
    } else if !(forall|i: int| start <= i < text.len() ==> is_digit(#[trigger] text[i])) {
        None
    } else if !(i32::MIN <= signed <= i32::MAX) {
        None
    } else {
        Some(signed)
    }
}

/// The tag of a ship.
pub open spec fn ship_tag() -> Seq<u8> {
    seq!['S' as u8, 'H' as u8, 'I' as u8, 'P' as u8]
}

/// The tag of a barrel.
pub open spec fn barrel_tag() -> Seq<u8> {
    seq!['B' as u8, 'A' as u8, 'R' as u8, 'R' as u8, 'E' as u8, 'L' as u8]
}

/// The tag of a mine.
pub open spec fn mine_tag() -> Seq<u8> {
    seq!['M' as u8, 'I' as u8, 'N' as u8, 'E' as u8]
}

/// The tag of a cannonball.
pub open spec fn cannonball_tag() -> Seq<u8> {
    seq![
        'C' as u8,
        'A' as u8,
        'N' as u8,
        'N' as u8,
        'O' as u8,
        'N' as u8,
        'B' as u8,
        'A' as u8,
        'L' as u8,
        'L' as u8,
    ]
}

/// The kind that a tag names, if it names one.
pub open spec fn kind_of_tag(tag: Seq<u8>) -> Option<EntityKind> {
    if tag == ship_tag() {
        Some(EntityKind::Ship)
    } else if tag == barrel_tag() {
        Some(EntityKind::Barrel)
    } else if tag == mine_tag() {
        Some(EntityKind::Mine)
    } else if tag == cannonball_tag() {
        Some(EntityKind::Cannonball)
    } else {
        None
    }
}

/// The field `k` of the line without the blanks at its ends.
pub open spec fn text(line: Seq<u8>, k: nat) -> Seq<u8> {
    trimmed(field(line, k))
}

/// Whether each of the seven fields of the line that hold numbers holds
/// one.
pub open spec fn numbers_ok(line: Seq<u8>) -> bool {
    &&& number(text(line, 0)) is Some
    &&& number(text(line, 2)) is Some
    &&& number(text(line, 3)) is Some
    &&& number(text(line, 4)) is Some
    &&& number(text(line, 5)) is Some
    &&& number(text(line, 6)) is Some
    &&& number(text(line, 7)) is Some
}

/// The record that the line of an entity holds; or why it holds none: a
/// field is missing, or else a field that should hold a number holds none,
/// or else the tag names no kind.
pub open spec fn record_of(line: Seq<u8>) -> Result<EntityRecord, SnapshotError> {
    if !has_field(line, (FIELDS - 1) as nat) {
        Err(SnapshotError::MissingField)
    } else if !numbers_ok(line) {
        Err(SnapshotError::BadNumber)
    } else {
        match kind_of_tag(text(line, 1)) {
            None => Err(SnapshotError::UnknownEntityType),
            Some(kind) => Ok(
                EntityRecord {
                    entity_id: number(text(line, 0))->0 as i32,
                    kind: kind,
                    x: number(text(line, 2))->0 as i32,
                    y: number(text(line, 3))->0 as i32,
                    arg_1: number(text(line, 4))->0 as i32,
                    arg_2: number(text(line, 5))->0 as i32,
                    arg_3: number(text(line, 6))->0 as i32,
                    arg_4: number(text(line, 7))->0 as i32,
                },
            ),
        }
    }
}

/// The number that a line holds which holds nothing else, or why it holds
/// none.
pub open spec fn count_of(line: Seq<u8>) -> Result<i32, SnapshotError> {
    match number(trimmed(line)) {
        Some(n) => Ok(n as i32),
        None => Err(SnapshotError::BadNumber),
    }
}

/// Whether the byte is a blank.
fn blank(b: u8) -> (yes: bool)
    ensures
        yes == is_blank(b),
{
    b == 32 || (9 <= b && b <= 13)
}

/// The index of the first space at or behind `from`.
fn end_of_field(line: &[u8], from: usize) -> (end: usize)
    requires
        from <= line.len(),
    ensures
        end == field_end(line@, from as int),
        from <= end <= line.len(),
{
    let mut i: usize = from;
    while i < line.len() && line[i] != SPACE
        invariant
            from <= i <= line.len(),
            field_end(line@, from as int) == field_end(line@, i as int),
        decreases line.len() - i,
    {
        i = i + 1;
    }
    i
}

/// The bounds of the first eight fields of the line, if it has as many.
fn split(line: &[u8]) -> (bounds: Option<Vec<(usize, usize)>>)
    ensures
        bounds is Some <==> has_field(line@, (FIELDS - 1) as nat),
        bounds is Some ==> bounds->0.len() == FIELDS && forall|k: int|
            0 <= k < FIELDS ==> (#[trigger] bounds->0[k]).0 <= bounds->0[k].1 <= line.len() && line@.subrange(
                bounds->0[k].0 as int,
                bounds->0[k].1 as int,
            ) == field(line@, k as nat),
{
    let mut bounds: Vec<(usize, usize)> = Vec::new();
    let mut start: usize = 0;
    let mut k: usize = 0;
    while k < FIELDS
        invariant
            k <= FIELDS,
            bounds.len() == k,
            start <= line.len(),
            start == field_start(line@, k as nat),
            forall|j: int|
                0 <= j < k ==> (#[trigger] bounds[j]).0 <= bounds[j].1 <= line.len() && line@.subrange(
                    bounds[j].0 as int,
                    bounds[j].1 as int,
                ) == field(line@, j as nat),
        decreases FIELDS - k,
    {
        let end: usize = end_of_field(line, start);
        bounds.push((start, end));
        if k + 1 == FIELDS {
            return Some(bounds);
        }
        if end == line.len() {
            proof {
                lemma_no_more_fields(line@, (k + 1) as nat, (FIELDS - 1) as nat);
            }
            return None;
        }
        start = end + 1;
        k = k + 1;
    }
    Some(bounds)
}

/// The bounds of what stands between `from` and `to` without the blanks at
/// its ends.
fn trim(line: &[u8], from: usize, to: usize) -> (bounds: (usize, usize))
    requires
        from <= to <= line.len(),
    ensures
        from <= bounds.0 <= bounds.1 <= to,
        line@.subrange(bounds.0 as int, bounds.1 as int) == trimmed(line@.subrange(from as int, to as int)),
{
    let mut a: usize = from;
    let mut b: usize = to;
    while a < b && blank(line[a])
        invariant
            from <= a <= b,
            b == to,
            to <= line.len(),
            trimmed(line@.subrange(a as int, b as int)) == trimmed(line@.subrange(from as int, to as int)),
        decreases b - a,
    {
        assert(line@.subrange(a as int, b as int).drop_first() =~= line@.subrange(a + 1, b as int));
        a = a + 1;
    }
    while a < b && blank(line[b - 1])
        invariant
            from <= a <= b <= to,
            to <= line.len(),
            a < b ==> !is_blank(line@[a as int]),
            trimmed(line@.subrange(a as int, b as int)) == trimmed(line@.subrange(from as int, to as int)),
        decreases b - a,
    {
        assert(line@.subrange(a as int, b as int).drop_last() =~= line@.subrange(a as int, b - 1));
        b = b - 1;
    }
    (a, b)
}

/// The number that stands between `from` and `to`, if one stands there.
fn number_in(line: &[u8], from: usize, to: usize) -> (value: Option<i32>)
    requires
        from <= to <= line.len(),
    ensures
        value is Some <==> number(line@.subrange(from as int, to as int)) is Some,
        value is Some ==> value->0 == number(line@.subrange(from as int, to as int))->0,
{
    let ghost text = line@.subrange(from as int, to as int);
    if from == to {
        return None;
    }
    let negative: bool = line[from] == '-' as u8;
    let signed: bool = negative || line[from] == '+' as u8;
    let start: usize = if signed {
        from + 1
    } else {
        from
    };
    if start == to {
        return None;
    }
    let mut value: i64 = 0;
    let mut huge: bool = false;
    let mut i: usize = start;
    while i < to
        invariant
            start <= i <= to,
            to <= line.len(),
            from <= start,
            text == line@.subrange(from as int, to as int),
            start - from == digits_start(text),
            forall|k: int| start - from <= k < i - from ==> is_digit(#[trigger] text[k]),
            !huge ==> value == decimal(text, start - from, i - from) && 0 <= value <= 2147483648,
            huge ==> decimal(text, start - from, i - from) > 2147483648,
        decreases to - i,
    {
        let b: u8 = line[i];
        if b < '0' as u8 || b > '9' as u8 {
            assert(!is_digit(text[i - from]));
            return None;
        }
        if !huge {
            value = value * 10 + (b - '0' as u8) as i64;
            if value > 2147483648 {
                huge = true;
            }
        }
        i = i + 1;
    }
    if huge {
        return None;
    }
    let result: i64 = if negative {
        -value
    } else {
        value
    };
    if result > i32::MAX as i64 {
        return None;
    }
    Some(result as i32)
}

/// Whether what stands between `from` and `to` is `name`.
fn is_name(line: &[u8], from: usize, to: usize, name: &Vec<u8>) -> (same: bool)
    requires
        from <= to <= line.len(),
    ensures
        same == (line@.subrange(from as int, to as int) == name@),
{
    if to - from != name.len() {
        return false;
    }
    let mut i: usize = 0;
    while i < name.len()
        invariant
            i <= name.len(),
            from <= to <= line.len(),
            to - from == name.len(),
            forall|k: int| 0 <= k < i ==> line@[from + k] == name@[k],
        decreases name.len() - i,
    {
        if line[from + i] != name[i] {
            assert(line@.subrange(from as int, to as int)[i as int] != name@[i as int]);
            return false;
        }
        i = i + 1;
    }
    assert(line@.subrange(from as int, to as int) =~= name@);
    true
}

/// The kind that what stands between `from` and `to` names.
fn kind_in(line: &[u8], from: usize, to: usize) -> (kind: Option<EntityKind>)
    requires
        from <= to <= line.len(),
    ensures
        kind == kind_of_tag(line@.subrange(from as int, to as int)),
{
    let ship: Vec<u8> = vec!['S' as u8, 'H' as u8, 'I' as u8, 'P' as u8];
    let barrel: Vec<u8> = vec!['B' as u8, 'A' as u8, 'R' as u8, 'R' as u8, 'E' as u8, 'L' as u8];
    let mine: Vec<u8> = vec!['M' as u8, 'I' as u8, 'N' as u8, 'E' as u8];
    let cannonball: Vec<u8> = vec![
        'C' as u8,
        'A' as u8,
        'N' as u8,
        'N' as u8,
        'O' as u8,
        'N' as u8,
        'B' as u8,
        'A' as u8,
        'L' as u8,
        'L' as u8,
    ];
    assert(ship@ =~= ship_tag());
    assert(barrel@ =~= barrel_tag());
    assert(mine@ =~= mine_tag());
    assert(cannonball@ =~= cannonball_tag());
    if is_name(line, from, to, &ship) {
        Some(EntityKind::Ship)
    } else if is_name(line, from, to, &barrel) {
        Some(EntityKind::Barrel)
    } else if is_name(line, from, to, &mine) {
        Some(EntityKind::Mine)
    } else if is_name(line, from, to, &cannonball) {
        Some(EntityKind::Cannonball)
    } else {
        None
    }
}

/// The number in the field with the given bounds, blanks at its ends aside.
fn number_of_field(line: &[u8], bounds: (usize, usize)) -> (value: Option<i32>)
    requires
        bounds.0 <= bounds.1 <= line.len(),
    ensures
        value is Some <==> number(trimmed(line@.subrange(bounds.0 as int, bounds.1 as int))) is Some,
        value is Some ==> value->0 == number(trimmed(line@.subrange(bounds.0 as int, bounds.1 as int)))->0,
{
    let inner: (usize, usize) = trim(line, bounds.0, bounds.1);
    number_in(line, inner.0, inner.1)
}

impl EntityKind {
    /// The kind that `tag` names.
    pub fn from_tag(tag: &[u8]) -> (kind: Result<EntityKind, SnapshotError>)
        ensures
            kind == match kind_of_tag(tag@) {
                Some(k) => Ok::<EntityKind, SnapshotError>(k),
                None => Err(SnapshotError::UnknownEntityType),
            },
    {
        assert(tag@.subrange(0, tag.len() as int) =~= tag@);
        match kind_in(tag, 0, tag.len()) {
            Some(kind) => Ok(kind),
            None => Err(SnapshotError::UnknownEntityType),
        }
    }
}

/// Reads a line that holds one number and nothing else but blanks.
pub fn parse_count(line: &[u8]) -> (count: Result<i32, SnapshotError>)
    ensures
        count == count_of(line@),
{
    assert(line@.subrange(0, line.len() as int) =~= line@);
    match number_of_field(line, (0, line.len())) {
        Some(n) => Ok(n),
        None => Err(SnapshotError::BadNumber),
    }
}

/// Reads the line of an entity.
pub fn parse_record(line: &[u8]) -> (record: Result<EntityRecord, SnapshotError>)
    ensures
        record == record_of(line@),
{
    let bounds: Vec<(usize, usize)> = match split(line) {
        Some(bounds) => bounds,
        None => {
            return Err(SnapshotError::MissingField);
        },
    };
    let entity_id: Option<i32> = number_of_field(line, bounds[0]);
    let x: Option<i32> = number_of_field(line, bounds[2]);
    let y: Option<i32> = number_of_field(line, bounds[3]);
    let arg_1: Option<i32> = number_of_field(line, bounds[4]);
    let arg_2: Option<i32> = number_of_field(line, bounds[5]);
    let arg_3: Option<i32> = number_of_field(line, bounds[6]);
    let arg_4: Option<i32> = number_of_field(line, bounds[7]);
    match (entity_id, x, y, arg_1, arg_2, arg_3, arg_4) {
        (Some(entity_id), Some(x), Some(y), Some(arg_1), Some(arg_2), Some(arg_3), Some(arg_4)) => {
            let tag: (usize, usize) = trim(line, bounds[1].0, bounds[1].1);
            match kind_in(line, tag.0, tag.1) {
                Some(kind) => Ok(
                    EntityRecord {
                        entity_id: entity_id,
                        kind: kind,
                        x: x,
                        y: y,
                        arg_1: arg_1,
                        arg_2: arg_2,
                        arg_3: arg_3,
                        arg_4: arg_4,
                    },
                ),
                None => Err(SnapshotError::UnknownEntityType),
            }
        },
        _ => Err(SnapshotError::BadNumber),
    }
}

/// A line that lacks the field `k` lacks every field behind it.
pub proof fn lemma_no_more_fields(line: Seq<u8>, k: nat, m: nat)
    requires
        k <= m,
        !has_field(line, k),
    ensures
        !has_field(line, m),
    decreases m,
{
    if k < m {
        lemma_no_more_fields(line, k, (m - 1) as nat);
    }
}

} // verus!

use vstd::prelude::*;

use crate::error::Error;
use crate::extrapolate::ExtrapolationRule;
use crate::posix::{parse_rule_string, rule_of};
use crate::offset::offset_in_range;
use crate::rules::{strictly_increasing, timestamp_in_range, RuleSet, Transition, MAX_TIMESTAMP};

verus! {

/// The unsigned big-endian value of the four bytes at `p`.
pub open spec fn be_u32(b: Seq<u8>, p: int) -> int {
    b[p] * 16_777_216 + b[p + 1] * 65_536 + b[p + 2] * 256 + b[p + 3]
}

/// The signed value of the eight big-endian bytes whose halves read `hi` and `lo`.
pub open spec fn signed64(hi: int, lo: int) -> int {
    if hi >= 2_147_483_648 {
        (hi - 4_294_967_296) * 4_294_967_296 + lo
    } else {
        hi * 4_294_967_296 + lo
    }
}

/// The signed value of a 32-bit word `x`.
pub open spec fn signed32(x: int) -> int {
    if x >= 2_147_483_648 {
        x - 4_294_967_296
    } else {
        x
    }
}

/// The buffer opens with the four magic bytes `TZif`.
pub open spec fn has_magic(b: Seq<u8>, p: int) -> bool {
    &&& 0 <= p
    &&& p + 4 <= b.len()
    &&& b[p] == 0x54u8
    &&& b[p + 1] == 0x5Au8
    &&& b[p + 2] == 0x69u8
    &&& b[p + 3] == 0x66u8
}

/// The length of the data block after the header at `h`, whose six counts
/// stand at `h + 20`, with timestamps of `tsize` bytes.
pub open spec fn block_size(b: Seq<u8>, h: int, tsize: int) -> int {
    let isut = be_u32(b, h + 20);
    let isstd = be_u32(b, h + 24);
    let leap = be_u32(b, h + 28);
    let time = be_u32(b, h + 32);
    let types = be_u32(b, h + 36);
    let chars = be_u32(b, h + 40);
    time * tsize + time + types * 6 + chars + leap * (tsize + 4) + isstd + isut
}

/// The headers and blocks that a file declares lie within it: the first
/// block, and for versions 2 and later a second header and its 64-bit block.
pub open spec fn blocks_fit(b: Seq<u8>) -> bool {
    let first = 44 + block_size(b, 0, 4);
    &&& first <= b.len()
    &&& b[4] != 0u8 ==> has_magic(b, first) && first + 44 + block_size(b, first, 8) <= b.len()
}

/// Where the header of the block that describes the zone stands: the first
/// for version 1, the second otherwise.
pub open spec fn zone_header(b: Seq<u8>) -> int {
    if b[4] == 0u8 {
        0
    } else {
        44 + block_size(b, 0, 4)
    }
}

/// The size of the timestamps of that block.
pub open spec fn zone_tsize(b: Seq<u8>) -> int {
    if b[4] == 0u8 {
        4
    } else {
        8
    }
}

/// Timestamp `i` of the block whose data starts at `start`.
pub open spec fn time_at(b: Seq<u8>, start: int, tsize: int, i: int) -> int {
    if tsize == 4 {
        signed32(be_u32(b, start + 4 * i))
    } else {
        signed64(be_u32(b, start + 8 * i), be_u32(b, start + 8 * i + 4))
    }
}

/// The offset of local-time type `ty` of the block at `start`.
pub open spec fn type_offset(b: Seq<u8>, start: int, time: int, tsize: int, ty: int) -> int {
    signed32(be_u32(b, start + time * tsize + time + 6 * ty))
}

/// The first offset and transitions that the first `i` entries of the block
/// at `start` give: type 0 holds before the first transition; an entry before
/// the supported range replaces that first offset, one within it becomes a
/// transition from the offset before it, and one after it is dropped.
pub open spec fn table_prefix(b: Seq<u8>, start: int, time: int, tsize: int, i: int) -> (
    int,
    Seq<Transition>,
)
    decreases i,
{
    if i <= 0 {
        (type_offset(b, start, time, tsize, 0), Seq::empty())
    } else {
        let (init, v) = table_prefix(b, start, time, tsize, i - 1);
        let t = time_at(b, start, tsize, i - 1);
        let off = type_offset(b, start, time, tsize, b[start + time * tsize + i - 1] as int);
        let cur = if v.len() == 0 {
            init
        } else {
            v.last().after as int
        };
        if t < -1_000_000_000_000_000 {
            (off, v)
        } else if t <= 1_000_000_000_000_000 {
            (init, v.push(Transition { utc: t as i64, before: cur as i32, after: off as i32 }))
        } else {
            (init, v)
        }
    }
}

/// The first offset and transitions that a file describes.
pub open spec fn tzif_table(b: Seq<u8>) -> (int, Seq<Transition>) {
    let h = zone_header(b);
    let time = be_u32(b, h + 32);
    table_prefix(b, h + 44, time, zone_tsize(b), time)
}

/// The data block at `start`, with `time` transitions and `types` local-time
/// types, is usable: at least one type, each transition names a declared type,
/// the timestamps strictly increase, and type 0 and every type named have an
/// offset within a day.
pub open spec fn block_valid(b: Seq<u8>, start: int, time: int, types: int, tsize: int) -> bool {
    let idx_at = start + time * tsize;
    let types_at = idx_at + time;
    &&& types > 0
    &&& forall|i: int| 0 <= i < time ==> #[trigger] b[idx_at + i] < types
    &&& forall|i: int|
        0 < i < time ==> #[trigger] time_at(b, start, tsize, i - 1) < time_at(b, start, tsize, i)
    &&& offset_in_range(signed32(be_u32(b, types_at)))
    &&& forall|i: int|
        0 <= i < time ==> offset_in_range(signed32(be_u32(b, types_at + 6 * #[trigger] b[idx_at + i])))
}

/// The block after header `h` is usable, as `block_valid` says.
pub open spec fn block_consistent(b: Seq<u8>, h: int, tsize: int) -> bool {
    block_valid(b, h + 44, be_u32(b, h + 32), be_u32(b, h + 36), tsize)
}

/// The file opens with the magic and a known version, and the blocks it
/// declares lie within it.
pub open spec fn header_valid(b: Seq<u8>) -> bool {
    &&& has_magic(b, 0)
    &&& b.len() >= 44
    &&& known_version(b[4])
    &&& blocks_fit(b)
}

/// Where the footer of a version 2 or later file starts: after the block
/// that describes the zone.
pub open spec fn footer_start(b: Seq<u8>) -> int {
    zone_header(b) + 44 + block_size(b, zone_header(b), zone_tsize(b))
}

/// The first position from `q` on that holds a newline, or the end.
pub open spec fn newline_end(b: Seq<u8>, q: int) -> int
    decreases b.len() - q,
{
    if 0 <= q < b.len() && b[q] != 0x0Au8 {
        newline_end(b, q + 1)
    } else {
        q
    }
}

/// The footer's text: what stands after its opening newline, up to the next.
pub open spec fn footer_text(b: Seq<u8>) -> Seq<u8> {
    let f = footer_start(b);
    b.subrange(f + 1, newline_end(b, f + 1))
}

/// The footer opens with a newline and a second one closes it.
pub open spec fn footer_closed(b: Seq<u8>) -> bool {
    let f = footer_start(b);
    &&& 0 <= f < b.len()
    &&& b[f] == 0x0Au8
    &&& newline_end(b, f + 1) < b.len()
}

/// The footer is empty: two newlines with nothing between them.
pub open spec fn footer_empty(b: Seq<u8>) -> bool {
    let f = footer_start(b);
    &&& f + 1 < b.len()
    &&& b[f] == 0x0Au8
    &&& b[f + 1] == 0x0Au8
}

/// A version byte that the format knows: NUL, `2`, `3` or `4`.
pub open spec fn known_version(v: u8) -> bool {
    v == 0u8 || v == 0x32u8 || v == 0x33u8 || v == 0x34u8
}

fn read_u32(b: &[u8], p: usize) -> (r: u32)
    requires
        p + 4 <= b@.len(),
    ensures
        r as int == be_u32(b@, p as int),
{
    let v: u64 = (b[p] as u64) * 16_777_216 + (b[p + 1] as u64) * 65_536 + (b[p + 2] as u64)
        * 256 + (b[p + 3] as u64);
    v as u32
}

fn read_i32(b: &[u8], p: usize) -> (r: i32)
    requires
        p + 4 <= b@.len(),
    ensures
        r as int == signed32(be_u32(b@, p as int)),
{
    let v: i64 = read_u32(b, p) as i64;
    if v >= 2_147_483_648 {
        (v - 4_294_967_296) as i32
    } else {
        v as i32
    }
}

fn read_i64(b: &[u8], p: usize) -> (r: i64)
    requires
        p + 8 <= b@.len(),
    ensures
        r as int == signed64(be_u32(b@, p as int), be_u32(b@, p + 4)),
{
    let n = b.len();
    assert(p + 4 < n);
    let hi: i64 = read_u32(b, p) as i64;
    let lo: i64 = read_u32(b, p + 4) as i64;
    if hi >= 2_147_483_648 {
        let h: i64 = hi - 4_294_967_296;
        assert(-2_147_483_648 <= h < 0);
        assert(-9_223_372_036_854_775_808 <= h * 4_294_967_296 <= -4_294_967_296) by (nonlinear_arith)
            requires
                -2_147_483_648 <= h < 0,
        ;
        h * 4_294_967_296 + lo
    } else {
        assert(0 <= hi * 4_294_967_296 <= 2_147_483_647 * 4_294_967_296) by (nonlinear_arith)
            requires
                0 <= hi < 2_147_483_648,
        ;
        hi * 4_294_967_296 + lo
    }
}

/// The six counts of a header, in file order: UT indicators, standard
/// indicators, leap seconds, transitions, local-time types, abbreviation bytes.
struct Counts {
    isut: usize,
    isstd: usize,
    leap: usize,
    time: usize,
    types: usize,
    chars: usize,
}

/// Reads the header at `h`: the magic, then the counts at `h + 20`.
fn read_header(b: &[u8], h: usize) -> (r: Result<Counts, Error>)
    requires
        h <= b@.len(),
    ensures
        r is Ok ==> has_magic(b@, h as int) && h + 44 <= b@.len(),
        !has_magic(b@, h as int) ==> r is Err,
        has_magic(b@, h as int) && h + 44 <= b@.len() ==> r is Ok,
        r matches Ok(c) ==> c.isut == be_u32(b@, h + 20) && c.isstd == be_u32(b@, h + 24)
            && c.leap == be_u32(b@, h + 28) && c.time == be_u32(b@, h + 32) && c.types == be_u32(
            b@,
            h + 36,
        ) && c.chars == be_u32(b@, h + 40),
        r matches Ok(c) ==> c.isut < 0x1_0000_0000 && c.isstd < 0x1_0000_0000 && c.leap
            < 0x1_0000_0000 && c.time < 0x1_0000_0000 && c.types < 0x1_0000_0000 && c.chars
            < 0x1_0000_0000,
        r matches Err(e) ==> e == Error::InvalidTzData,
{
    if b.len() - h < 44 {
        return Err(Error::InvalidTzData);
    }
    if !(b[h] == 0x54 && b[h + 1] == 0x5A && b[h + 2] == 0x69 && b[h + 3] == 0x66) {
        return Err(Error::InvalidTzData);
    }
    Ok(
        Counts {
            isut: read_u32(b, h + 20) as usize,
            isstd: read_u32(b, h + 24) as usize,
            leap: read_u32(b, h + 28) as usize,
            time: read_u32(b, h + 32) as usize,
            types: read_u32(b, h + 36) as usize,
            chars: read_u32(b, h + 40) as usize,
        },
    )
}

/// The length of the data block that follows a header, with timestamps of
/// `tsize` bytes.
fn block_len(c: &Counts, tsize: usize) -> (r: u64)
    requires
        tsize == 4 || tsize == 8,
        c.isut < 0x1_0000_0000 && c.isstd < 0x1_0000_0000 && c.leap < 0x1_0000_0000 && c.time
            < 0x1_0000_0000 && c.types < 0x1_0000_0000 && c.chars < 0x1_0000_0000,
    ensures
        r == c.time * tsize + c.time + c.types * 6 + c.chars + c.leap * (tsize + 4) + c.isstd
            + c.isut,
{
    let t = tsize as u64;
    assert(c.time * tsize <= 0x1_0000_0000 * 8) by (nonlinear_arith)
        requires
            c.time < 0x1_0000_0000,
            tsize <= 8,
    ;
    assert(c.leap * (tsize + 4) <= 0x1_0000_0000 * 12) by (nonlinear_arith)
        requires
            c.leap < 0x1_0000_0000,
            tsize <= 8,
    ;
    (c.time as u64) * t + (c.time as u64) + (c.types as u64) * 6 + (c.chars as u64) + (
    c.leap as u64) * (t + 4) + (c.isstd as u64) + (c.isut as u64)
}

/// Builds the rule set from the data block at `start` that header counts `c`
/// describe. Local-time type 0 is in force before the first transition.
/// Transitions before the supported range only set that first offset;
/// those after it are checked for order and otherwise dropped.
#[verifier::spinoff_prover]
fn parse_block(b: &[u8], start: usize, c: &Counts, tsize: usize) -> (r: Result<RuleSet, Error>)
    requires
        tsize == 4 || tsize == 8,
        c.isut < 0x1_0000_0000 && c.isstd < 0x1_0000_0000 && c.leap < 0x1_0000_0000 && c.time
            < 0x1_0000_0000 && c.types < 0x1_0000_0000 && c.chars < 0x1_0000_0000,
        start + c.time * tsize + c.time + c.types * 6 + c.chars + c.leap * (tsize + 4) + c.isstd
            + c.isut <= b@.len(),
    ensures
        r matches Ok(rs) ==> rs.wf(),
        r is Ok <==> block_valid(b@, start as int, c.time as int, c.types as int, tsize as int),
        r matches Ok(rs) ==> (rs.initial as int, rs.transitions@) == table_prefix(
            b@,
            start as int,
            c.time as int,
            tsize as int,
            c.time as int,
        ),
        r matches Err(e) ==> e == Error::InvalidTzData,
{
    let n = b.len();
    if c.types == 0 {
        return Err(Error::InvalidTzData);
    }
    assert(c.time * tsize + c.time + c.types * 6 <= n - start);
    let idx_at: usize = start + c.time * tsize;
    let types_at: usize = idx_at + c.time;
    let init = read_i32(b, types_at);
    if init < -crate::offset::MAX_OFFSET_SECS || init > crate::offset::MAX_OFFSET_SECS {
        return Err(Error::InvalidTzData);
    }
    let mut initial: i32 = init;
    let mut cur: i32 = init;
    let mut v: Vec<Transition> = Vec::new();
    let mut seen = false;
    let mut last_t: i64 = 0;
    let mut i: usize = 0;
    while i < c.time
        invariant
            tsize == 4 || tsize == 8,
            n == b@.len(),
            c.time < 0x1_0000_0000,
            c.types < 0x1_0000_0000,
            idx_at == start + c.time * tsize,
            types_at == idx_at + c.time,
            types_at + c.types * 6 <= n,
            c.time * tsize <= n,
            v@.len() <= i <= c.time,
            strictly_increasing(v@),
            offset_in_range(initial as int),
            offset_in_range(cur as int),
            forall|k: int|
                0 <= k < v@.len() ==> {
                    &&& offset_in_range(#[trigger] v@[k].after as int)
                    &&& offset_in_range(v@[k].before as int)
                    &&& timestamp_in_range(v@[k].utc as int)
                },
            forall|k: int| 0 <= k < v@.len() - 1 ==> #[trigger] v@[k].after == v@[k + 1].before,
            v@.len() == 0 ==> cur == initial,
            v@.len() > 0 ==> v@[0].before == initial && cur == v@.last().after && seen
                && v@.last().utc <= last_t,
            seen <==> i > 0,
            seen ==> last_t == time_at(b@, start as int, tsize as int, i - 1),
            c.types > 0,
            forall|k: int| 0 <= k < i ==> #[trigger] b@[idx_at + k] < c.types,
            forall|k: int|
                0 <= k < i ==> offset_in_range(
                    signed32(be_u32(b@, types_at + 6 * #[trigger] b@[idx_at + k])),
                ),
            offset_in_range(signed32(be_u32(b@, types_at as int))),
            (initial as int, v@) == table_prefix(b@, start as int, c.time as int, tsize as int, i as int),
            forall|k: int|
                0 < k < i ==> #[trigger] time_at(b@, start as int, tsize as int, k - 1) < time_at(
                    b@,
                    start as int,
                    tsize as int,
                    k,
                ),
        decreases c.time - i,
    {
        assert(i * tsize + tsize <= c.time * tsize) by (nonlinear_arith)
            requires
                i < c.time,
                tsize >= 0,
        ;
        let t: i64 = if tsize == 4 {
            read_i32(b, start + i * 4) as i64
        } else {
            read_i64(b, start + i * 8)
        };
        assert(t == time_at(b@, start as int, tsize as int, i as int));
        let ty = b[idx_at + i] as usize;
        if ty >= c.types {
            return Err(Error::InvalidTzData);
        }
        let off = read_i32(b, types_at + ty * 6);
        assert(off == type_offset(b@, start as int, c.time as int, tsize as int, ty as int));
        if off < -crate::offset::MAX_OFFSET_SECS || off > crate::offset::MAX_OFFSET_SECS {
            return Err(Error::InvalidTzData);
        }
        if seen && t <= last_t {
            return Err(Error::InvalidTzData);
        }
        let ghost prev = v@;
        if t < -MAX_TIMESTAMP {
            if v.len() > 0 {
                assert(timestamp_in_range(v@[v@.len() - 1].utc as int));
            }
            initial = off;
            cur = off;
        } else if t <= MAX_TIMESTAMP {
            let ghost old_v = v@;
            v.push(Transition { utc: t, before: cur, after: off });
            assert(strictly_increasing(v@)) by {
                assert forall|a: int, b2: int| 0 <= a < b2 < v@.len() implies #[trigger] v@[a].utc
                    < #[trigger] v@[b2].utc by {
                    if b2 == v@.len() - 1 && a < old_v.len() {
                        assert(old_v[a].utc <= old_v.last().utc);
                    }
                }
            }
            cur = off;
        }
        seen = true;
        last_t = t;
        i = i + 1;
    }
    assert(c.time < usize::MAX) by (nonlinear_arith)
        requires
            c.time * tsize <= n,
            tsize >= 4,
            n <= usize::MAX,
    ;
    Ok(RuleSet { initial, transitions: v })
}

/// Finds the block that describes the zone: the first one for version 1
/// files, the 64-bit one after it otherwise. Returns where its data starts,
/// its counts, the size of its timestamps and where it ends.
fn locate_block(b: &[u8]) -> (r: Result<(usize, Counts, usize, usize), Error>)
    ensures
        !has_magic(b@, 0) ==> r is Err,
        header_valid(b@) ==> r is Ok,
        r matches Err(e) ==> e == Error::InvalidTzData,
        r matches Ok((start, c, tsize, end)) ==> {
            &&& has_magic(b@, 0)
            &&& b@.len() >= 44
            &&& known_version(b@[4])
            &&& tsize == 4 || tsize == 8
            &&& c.isut < 0x1_0000_0000 && c.isstd < 0x1_0000_0000 && c.leap < 0x1_0000_0000
                && c.time < 0x1_0000_0000 && c.types < 0x1_0000_0000 && c.chars < 0x1_0000_0000
            &&& end == start + c.time * tsize + c.time + c.types * 6 + c.chars + c.leap * (tsize
                + 4) + c.isstd + c.isut
            &&& end <= b@.len()
            &&& blocks_fit(b@)
            &&& start == zone_header(b@) + 44
            &&& tsize == zone_tsize(b@)
            &&& c.time == be_u32(b@, zone_header(b@) + 32)
            &&& c.types == be_u32(b@, zone_header(b@) + 36)
            &&& end == footer_start(b@)
        },
{
    let n = b.len();
    let c = read_header(b, 0)?;
    let version = b[4];
    if !(version == 0 || version == 0x32 || version == 0x33 || version == 0x34) {
        return Err(Error::InvalidTzData);
    }
    let len1 = block_len(&c, 4);
    assert(len1 == block_size(b@, 0, 4));
    if len1 > (n - 44) as u64 {
        return Err(Error::InvalidTzData);
    }
    if version == 0 {
        return Ok((44, c, 4, 44 + len1 as usize));
    }
    let h2: usize = 44 + len1 as usize;
    let c2 = read_header(b, h2)?;
    let len2 = block_len(&c2, 8);
    assert(len2 == block_size(b@, h2 as int, 8));
    if len2 > (n - h2 - 44) as u64 {
        return Err(Error::InvalidTzData);
    }
    Ok((h2 + 44, c2, 8, h2 + 44 + len2 as usize))
}

/// Parses a time-zone-information file. Fails with `InvalidTzData`, and no
/// fallback zone, when the magic is missing, the version is unknown, the
/// counts run past the buffer, a type index is out of range, an offset is a
/// day or more, or the transitions are not strictly increasing, and succeeds
/// otherwise. For versions 2 and later the 64-bit block after the first one
/// is read.
pub fn parse_tzif(b: &[u8]) -> (r: Result<RuleSet, Error>)
    ensures
        !has_magic(b@, 0) ==> r == Err::<RuleSet, Error>(Error::InvalidTzData),
        r matches Err(e) ==> e == Error::InvalidTzData,
        r is Ok <==> header_valid(b@) && block_consistent(b@, zone_header(b@), zone_tsize(b@)),
        r matches Ok(rs) ==> rs.wf(),
        r matches Ok(rs) ==> (rs.initial as int, rs.transitions@) == tzif_table(b@),
{
    let (start, c, tsize, _end) = locate_block(b)?;
    parse_block(b, start, &c, tsize)
}

/// The recurring rule in the footer of a version 2 or later file, written
/// between two newlines after the 64-bit block; `None` for a version 1 file
/// or an empty footer. Fails with `InvalidTzData` as `parse_tzif` does, and
/// when the footer is missing or its rule is malformed.
pub fn parse_tzif_rule(b: &[u8]) -> (r: Result<Option<ExtrapolationRule>, Error>)
    ensures
        !header_valid(b@) ==> r is Err,
        r matches Err(e) ==> e == Error::InvalidTzData,
        r matches Ok(Some(rule)) ==> rule.wf(),
        header_valid(b@) && b@[4] == 0u8 ==> r == Ok::<Option<ExtrapolationRule>, Error>(None),
        header_valid(b@) && b@[4] != 0u8 && footer_empty(b@) ==> r == Ok::<
            Option<ExtrapolationRule>,
            Error,
        >(None),
        r == Ok::<Option<ExtrapolationRule>, Error>(None) ==> b@[4] == 0u8 || footer_empty(b@),
        r matches Ok(Some(x)) ==> b@[4] != 0u8 && footer_closed(b@) && rule_of(footer_text(b@))
            == Some(x),
        header_valid(b@) && b@[4] != 0u8 && footer_closed(b@) && !footer_empty(b@) ==> (r is Ok
            <==> rule_of(footer_text(b@)) is Some),
{
    let n = b.len();
    let (_start, _c, tsize, end) = locate_block(b)?;
    if tsize == 4 {
        return Ok(None);
    }
    if end >= n || b[end] != 0x0A {
        return Err(Error::InvalidTzData);
    }
    let mut q = end + 1;
    while q < n && b[q] != 0x0A
        invariant
            end < q <= n,
            n == b@.len(),
            forall|k: int| end < k < q ==> b@[k] != 0x0Au8,
            newline_end(b@, q as int) == newline_end(b@, end + 1),
        decreases n - q,
    {
        q = q + 1;
    }
    if q == n {
        return Err(Error::InvalidTzData);
    }
    if q == end + 1 {
        return Ok(None);
    }
    let rule = parse_rule_string(vstd::slice::slice_subrange(b, end + 1, q))?;
    Ok(Some(rule))
}

} // verus!

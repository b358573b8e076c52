//! The persistence record format: a self-describing text encoding of the
//! creature record, one `key=value` line per field, fixed-width zero-padded
//! decimals (sortable and human-diffable) and the name as the trailing
//! field. Encoding and decoding are verified inverses of one another.

use vstd::prelude::*;
use vstd::string::StrSliceExecFns;
use vstd::string::StringSliceAdditionalSpecFns;
use vstd::utf8::{
    decode_utf8, decode_utf8_encode_utf8, encode_utf8, encode_utf8_decode_utf8,
    encode_utf8_valid_utf8, valid_utf8,
};

use crate::monster::Monster;

verus! {

/// Ten to the `w`.
pub open spec fn pow10(w: nat) -> nat
    decreases w,
{
    if w == 0 {
        1
    } else {
        10 * pow10((w - 1) as nat)
    }
}

/// An ASCII decimal digit.
pub open spec fn is_digit(b: u8) -> bool {
    48 <= b <= 57
}

/// Every byte of `s` is an ASCII decimal digit.
pub open spec fn all_digits(s: Seq<u8>) -> bool {
    forall|i: int| 0 <= i < s.len() ==> is_digit(#[trigger] s[i])
}

/// The `w`-digit zero-padded decimal numeral of `v`, least significant
/// digit last.
pub open spec fn decw(v: nat, w: nat) -> Seq<u8>
    decreases w,
{
    if w == 0 {
        Seq::empty()
    } else {
        decw(v / 10, (w - 1) as nat).push((48 + v % 10) as u8)
    }
}

/// The value of a decimal numeral.
pub open spec fn parsew(s: Seq<u8>) -> int
    decreases s.len(),
{
    if s.len() == 0 {
        0
    } else {
        parsew(s.drop_last()) * 10 + (s.last() - 48)
    }
}

pub proof fn lemma_pow10_pos(w: nat)
    ensures
        pow10(w) >= 1,
    decreases w,
{
    if w > 0 {
        lemma_pow10_pos((w - 1) as nat);
    }
}

/// The numeral widths the record format uses, as concrete bounds.
pub proof fn lemma_pow10_widths()
    ensures
        pow10(3) == 1000,
        pow10(10) == 10000000000,
        pow10(20) == 100000000000000000000,
{
    reveal_with_fuel(pow10, 21);
}

/// A numeral has its stated width and holds digits only.
pub proof fn lemma_decw_digits(v: nat, w: nat)
    ensures
        decw(v, w).len() == w,
        all_digits(decw(v, w)),
    decreases w,
{
    if w > 0 {
        lemma_decw_digits(v / 10, (w - 1) as nat);
        let s0 = decw(v / 10, (w - 1) as nat);
        let s = decw(v, w);
        assert forall|i: int| 0 <= i < s.len() implies is_digit(s[i]) by {
            if i < s0.len() {
                assert(s[i] == s0[i]);
            } else {
                assert(s[i] == (48 + v % 10) as u8);
            }
        }
    }
}

/// Parsing the numeral of `v` gives `v` back.
pub proof fn lemma_parse_decw(v: nat, w: nat)
    requires
        v < pow10(w),
    ensures
        parsew(decw(v, w)) == v,
    decreases w,
{
    if w == 0 {
    } else {
        assert(pow10(w) == 10 * pow10((w - 1) as nat));
        assert(v / 10 < pow10((w - 1) as nat)) by (nonlinear_arith)
            requires
                v < 10 * pow10((w - 1) as nat),
        ;
        lemma_parse_decw(v / 10, (w - 1) as nat);
        let s0 = decw(v / 10, (w - 1) as nat);
        let s = decw(v, w);
        lemma_decw_digits(v / 10, (w - 1) as nat);
        assert(s.drop_last() =~= s0);
        assert(s.last() == (48 + v % 10) as u8);
    }
}

/// A digit string parses below `pow10` of its width, and printing the
/// parsed value at that width gives the digits back.
pub proof fn lemma_decw_parse(s: Seq<u8>)
    requires
        all_digits(s),
    ensures
        0 <= parsew(s) < pow10(s.len()),
        decw(parsew(s) as nat, s.len()) == s,
    decreases s.len(),
{
    if s.len() == 0 {
        assert(decw(0, 0) =~= s);
    } else {
        let s0 = s.drop_last();
        assert(all_digits(s0)) by {
            assert forall|i: int| 0 <= i < s0.len() implies is_digit(s0[i]) by {
                assert(s0[i] == s[i]);
            }
        }
        lemma_decw_parse(s0);
        let p0 = parsew(s0);
        let d = s.last() - 48;
        let p = parsew(s);
        assert(is_digit(s.last()));
        assert(p == p0 * 10 + d);
        assert(p < pow10(s.len())) by (nonlinear_arith)
            requires
                p == p0 * 10 + d,
                0 <= d <= 9,
                0 <= p0 < pow10((s.len() - 1) as nat),
                pow10(s.len()) == 10 * pow10((s.len() - 1) as nat),
        ;
        assert(p / 10 == p0 && p % 10 == d) by (nonlinear_arith)
            requires
                p == p0 * 10 + d,
                0 <= d <= 9,
                p0 >= 0,
        ;
        assert((p as nat) / 10 == p0 as nat);
        assert((p as nat) % 10 == d as nat);
        assert(decw(p as nat, s.len()) =~= s);
    }
}

/// Parsing distributes over concatenation.
pub proof fn lemma_parsew_concat(a: Seq<u8>, b: Seq<u8>)
    ensures
        parsew(a + b) == parsew(a) * pow10(b.len()) + parsew(b),
    decreases b.len(),
{
    if b.len() == 0 {
        assert(a + b =~= a);
        assert(parsew(a) * pow10(b.len()) == parsew(a)) by (nonlinear_arith)
            requires
                pow10(b.len()) == 1,
        ;
    } else {
        let b0 = b.drop_last();
        lemma_parsew_concat(a, b0);
        assert((a + b).len() == a.len() + b.len());
        assert((a + b).drop_last() =~= a + b0);
        assert((a + b).last() == b.last());
        assert(parsew(a + b) == parsew(a + b0) * 10 + (b.last() - 48));
        assert(parsew(b) == parsew(b0) * 10 + (b.last() - 48));
        assert(parsew(a) * pow10(b0.len()) * 10 == parsew(a) * pow10(b.len())) by (nonlinear_arith)
            requires
                pow10(b.len()) == 10 * pow10(b0.len()),
        ;
        assert(parsew(a + b0) * 10 == parsew(a) * pow10(b0.len()) * 10 + parsew(b0) * 10)
            by (nonlinear_arith)
            requires
                parsew(a + b0) == parsew(a) * pow10(b0.len()) + parsew(b0),
        ;
        assert(parsew(a + b) == parsew(a) * pow10(b.len()) + parsew(b));
    }
}

/// A digit string parses to a non-negative value.
pub proof fn lemma_parsew_nonneg(s: Seq<u8>)
    requires
        all_digits(s),
    ensures
        parsew(s) >= 0,
    decreases s.len(),
{
    if s.len() > 0 {
        let s0 = s.drop_last();
        assert(all_digits(s0)) by {
            assert forall|i: int| 0 <= i < s0.len() implies is_digit(s0[i]) by {
                assert(s0[i] == s[i]);
            }
        }
        lemma_parsew_nonneg(s0);
        assert(is_digit(s.last()));
    }
}

/// Appends the `width`-digit zero-padded numeral of `v`.
fn push_decimal(out: &mut Vec<u8>, v: u64, width: u32)
    requires
        (v as nat) < pow10(width as nat),
    ensures
        final(out)@ == old(out)@ + decw(v as nat, width as nat),
    decreases width,
{
    if width == 0 {
        assert(old(out)@ + decw(v as nat, 0) =~= old(out)@);
    } else {
        proof {
            assert(pow10(width as nat) == 10 * pow10((width - 1) as nat));
            assert((v as nat) / 10 < pow10((width - 1) as nat)) by (nonlinear_arith)
                requires
                    (v as nat) < 10 * pow10((width - 1) as nat),
            ;
        }
        push_decimal(out, v / 10, width - 1);
        let digit: u8 = 48 + (v % 10) as u8;
        out.push(digit);
        proof {
            assert(digit == (48 + (v as nat) % 10) as u8);
            assert(out@ =~= old(out)@ + decw(v as nat, width as nat));
        }
    }
}

/// Reads a fixed-width decimal numeral at `pos`; fails on a non-digit or a
/// value that cannot fit the accumulator.
fn read_decimal(buf: &Vec<u8>, pos: usize, width: usize) -> (r: Option<u64>)
    requires
        pos + width <= buf@.len(),
    ensures
        ({
            let window = buf@.subrange(pos as int, (pos + width) as int);
            match r {
                Some(v) => all_digits(window) && parsew(window) == v,
                None => !(all_digits(window) && parsew(window) <= u64::MAX),
            }
        }),
{
    let ghost window = buf@.subrange(pos as int, (pos + width) as int);
    proof {
        vstd::std_specs::vec::axiom_spec_len(buf);
    }
    let mut acc: u64 = 0;
    let mut i: usize = 0;
    while i < width
        invariant
            pos + width <= buf@.len() <= usize::MAX,
            0 <= i <= width,
            window == buf@.subrange(pos as int, (pos + width) as int),
            all_digits(buf@.subrange(pos as int, (pos + i) as int)),
            acc == parsew(buf@.subrange(pos as int, (pos + i) as int)),
        decreases width - i,
    {
        let ghost pre = buf@.subrange(pos as int, (pos + i) as int);
        let b: u8 = buf[pos + i];
        if b < 48 || b > 57 {
            proof {
                assert(window[i as int] == b);
                assert(!all_digits(window));
            }
            return None;
        }
        let d: u64 = (b - 48) as u64;
        if acc > (u64::MAX - d) / 10 {
            proof {
                lemma_read_decimal_overflow(buf@, pos as int, i as int, width as int, acc, b);
            }
            return None;
        }
        acc = acc * 10 + d;
        proof {
            let pre1 = buf@.subrange(pos as int, (pos + i + 1) as int);
            assert(pre1 =~= pre.push(b));
            assert(pre1.drop_last() =~= pre);
            assert(all_digits(pre1)) by {
                assert forall|j: int| 0 <= j < pre1.len() implies is_digit(pre1[j]) by {
                    if j < pre.len() {
                        assert(pre1[j] == pre[j]);
                    } else {
                        assert(pre1[j] == b);
                    }
                }
            }
        }
        i = i + 1;
    }
    proof {
        assert(buf@.subrange(pos as int, (pos + i) as int) =~= window);
    }
    Some(acc)
}

/// When the accumulator would overflow, no digit window at this position
/// parses within `u64`.
proof fn lemma_read_decimal_overflow(
    buf: Seq<u8>,
    pos: int,
    i: int,
    width: int,
    acc: u64,
    b: u8,
)
    requires
        0 <= pos,
        0 <= i < width,
        pos + width <= buf.len(),
        is_digit(b),
        buf[pos + i] == b,
        acc == parsew(buf.subrange(pos, pos + i)),
        acc > (u64::MAX - ((b - 48) as u64)) / 10,
    ensures
        !(all_digits(buf.subrange(pos, pos + width)) && parsew(buf.subrange(pos, pos + width))
            <= u64::MAX),
{
    let window = buf.subrange(pos, pos + width);
    if all_digits(window) {
        let d = (b - 48) as int;
        let pre = buf.subrange(pos, pos + i);
        let pre1 = buf.subrange(pos, pos + i + 1);
        assert(pre1 =~= pre.push(b));
        assert(pre1.drop_last() =~= pre);
        assert(parsew(pre1) == acc * 10 + d);
        assert(acc * 10 + d > u64::MAX) by (nonlinear_arith)
            requires
                acc > (u64::MAX - d) / 10,
                0 <= d <= 9,
                acc >= 0,
        ;
        let suf = buf.subrange(pos + i + 1, pos + width);
        assert(window =~= pre1 + suf);
        assert(all_digits(pre1)) by {
            assert forall|j: int| 0 <= j < pre1.len() implies is_digit(pre1[j]) by {
                assert(pre1[j] == window[j]);
            }
        }
        assert(all_digits(suf)) by {
            assert forall|j: int| 0 <= j < suf.len() implies is_digit(suf[j]) by {
                assert(suf[j] == window[i + 1 + j]);
            }
        }
        lemma_parsew_concat(pre1, suf);
        lemma_parsew_nonneg(suf);
        lemma_pow10_pos(suf.len());
        assert(parsew(window) > u64::MAX) by (nonlinear_arith)
            requires
                parsew(window) == parsew(pre1) * pow10(suf.len()) + parsew(suf),
                parsew(pre1) > u64::MAX,
                parsew(suf) >= 0,
                pow10(suf.len()) >= 1,
        ;
    }
}

/// The key written before each field's value.
pub open spec fn tag_hunger() -> Seq<u8> {
    "hunger=".spec_bytes()
}

pub open spec fn tag_happiness() -> Seq<u8> {
    "\nhappiness=".spec_bytes()
}

pub open spec fn tag_energy() -> Seq<u8> {
    "\nenergy=".spec_bytes()
}

pub open spec fn tag_health() -> Seq<u8> {
    "\nhealth=".spec_bytes()
}

pub open spec fn tag_age() -> Seq<u8> {
    "\nage=".spec_bytes()
}

pub open spec fn tag_updated() -> Seq<u8> {
    "\nlast_updated=".spec_bytes()
}

pub open spec fn tag_sleeping() -> Seq<u8> {
    "\nis_sleeping=".spec_bytes()
}

pub open spec fn tag_alive() -> Seq<u8> {
    "\nis_alive=".spec_bytes()
}

pub open spec fn tag_name() -> Seq<u8> {
    "\nname=".spec_bytes()
}

/// How a boolean field is written.
pub open spec fn bool_byte(b: bool) -> u8 {
    if b {
        49
    } else {
        48
    }
}

/// The encoding from each field on, so that every suffix of the record has
/// a name. The record ends with the name, which may hold any characters.
pub open spec fn from_alive(m: Monster) -> Seq<u8> {
    seq![bool_byte(m.is_alive)] + (tag_name() + encode_utf8(m.name@))
}

pub open spec fn from_sleeping(m: Monster) -> Seq<u8> {
    seq![bool_byte(m.is_sleeping)] + (tag_alive() + from_alive(m))
}

pub open spec fn from_updated(m: Monster) -> Seq<u8> {
    decw(m.last_updated as nat, 20) + (tag_sleeping() + from_sleeping(m))
}

pub open spec fn from_age(m: Monster) -> Seq<u8> {
    decw(m.age as nat, 10) + (tag_updated() + from_updated(m))
}

pub open spec fn from_health(m: Monster) -> Seq<u8> {
    decw(m.health as nat, 3) + (tag_age() + from_age(m))
}

pub open spec fn from_energy(m: Monster) -> Seq<u8> {
    decw(m.energy as nat, 3) + (tag_health() + from_health(m))
}

pub open spec fn from_happiness(m: Monster) -> Seq<u8> {
    decw(m.happiness as nat, 3) + (tag_energy() + from_energy(m))
}

pub open spec fn from_hunger(m: Monster) -> Seq<u8> {
    decw(m.hunger as nat, 3) + (tag_happiness() + from_happiness(m))
}

/// The full record encoding.
pub open spec fn spec_encode(m: Monster) -> Seq<u8> {
    tag_hunger() + from_hunger(m)
}

/// Where each field's value starts in the record.
pub open spec fn off_hunger() -> int {
    tag_hunger().len() as int
}

pub open spec fn off_happiness() -> int {
    off_hunger() + 3 + tag_happiness().len()
}

pub open spec fn off_energy() -> int {
    off_happiness() + 3 + tag_energy().len()
}

pub open spec fn off_health() -> int {
    off_energy() + 3 + tag_health().len()
}

pub open spec fn off_age() -> int {
    off_health() + 3 + tag_age().len()
}

pub open spec fn off_updated() -> int {
    off_age() + 10 + tag_updated().len()
}

pub open spec fn off_sleeping() -> int {
    off_updated() + 20 + tag_sleeping().len()
}

pub open spec fn off_alive() -> int {
    off_sleeping() + 1 + tag_alive().len()
}

pub open spec fn off_name() -> int {
    off_alive() + 1 + tag_name().len()
}

/// Some record encodes to these bytes.
pub open spec fn spec_decodable(b: Seq<u8>) -> bool {
    exists|m: Monster| m.wf() && b == #[trigger] spec_encode(m)
}

/// Two records agree in every field; the name by its characters.
pub open spec fn states_equal(a: Monster, b: Monster) -> bool {
    a.name@ == b.name@ && a.hunger == b.hunger && a.happiness == b.happiness && a.energy
        == b.energy && a.health == b.health && a.age == b.age && a.is_sleeping == b.is_sleeping
        && a.is_alive == b.is_alive && a.last_updated == b.last_updated
}

/// Splits a known suffix of `buf` into its first segment and the rest.
proof fn lemma_chop(buf: Seq<u8>, start: int, seg: Seq<u8>, rest: Seq<u8>)
    requires
        0 <= start <= buf.len(),
        buf.subrange(start, buf.len() as int) == seg + rest,
    ensures
        start + seg.len() + rest.len() == buf.len(),
        buf.subrange(start, start + seg.len()) == seg,
        buf.subrange(start + seg.len(), buf.len() as int) == rest,
{
    assert((seg + rest).len() == seg.len() + rest.len());
    assert forall|i: int| 0 <= i < seg.len() implies buf[start + i] == seg[i] by {
        assert((seg + rest)[i] == seg[i]);
        assert(buf.subrange(start, buf.len() as int)[i] == buf[start + i]);
    }
    assert forall|i: int| 0 <= i < rest.len() implies buf[start + seg.len() + i] == rest[i] by {
        assert((seg + rest)[seg.len() + i] == rest[i]);
        assert(buf.subrange(start, buf.len() as int)[seg.len() + i] == buf[start + seg.len() + i]);
    }
    assert(buf.subrange(start, start + seg.len()) =~= seg);
    assert(buf.subrange(start + seg.len(), buf.len() as int) =~= rest);
}

/// Joins two adjacent known pieces of `buf` back into one suffix.
proof fn lemma_glue(buf: Seq<u8>, start: int, seg: Seq<u8>, rest: Seq<u8>)
    requires
        0 <= start,
        start + seg.len() + rest.len() == buf.len(),
        buf.subrange(start, start + seg.len()) == seg,
        buf.subrange(start + seg.len(), buf.len() as int) == rest,
    ensures
        buf.subrange(start, buf.len() as int) == seg + rest,
{
    assert forall|i: int| 0 <= i < seg.len() + rest.len() implies buf[start + i] == (seg + rest)[i]
        by {
        if i < seg.len() {
            assert(buf.subrange(start, start + seg.len())[i] == buf[start + i]);
        } else {
            assert(buf.subrange(start + seg.len(), buf.len() as int)[i - seg.len()] == buf[start
                + i]);
        }
    }
    assert(buf.subrange(start, buf.len() as int) =~= seg + rest);
}

/// Where every piece of an encoded record stands, and what each piece
/// parses to.
#[verifier::rlimit(100)]
proof fn lemma_encode_fields(m: Monster, buf: Seq<u8>)
    requires
        buf == spec_encode(m),
    ensures
        buf.len() == off_name() + encode_utf8(m.name@).len(),
        buf.subrange(0, off_hunger()) == tag_hunger(),
        buf.subrange(off_hunger(), off_hunger() + 3) == decw(m.hunger as nat, 3),
        all_digits(buf.subrange(off_hunger(), off_hunger() + 3)),
        parsew(buf.subrange(off_hunger(), off_hunger() + 3)) == m.hunger,
        buf.subrange(off_hunger() + 3, off_happiness()) == tag_happiness(),
        buf.subrange(off_happiness(), off_happiness() + 3) == decw(m.happiness as nat, 3),
        all_digits(buf.subrange(off_happiness(), off_happiness() + 3)),
        parsew(buf.subrange(off_happiness(), off_happiness() + 3)) == m.happiness,
        buf.subrange(off_happiness() + 3, off_energy()) == tag_energy(),
        buf.subrange(off_energy(), off_energy() + 3) == decw(m.energy as nat, 3),
        all_digits(buf.subrange(off_energy(), off_energy() + 3)),
        parsew(buf.subrange(off_energy(), off_energy() + 3)) == m.energy,
        buf.subrange(off_energy() + 3, off_health()) == tag_health(),
        buf.subrange(off_health(), off_health() + 3) == decw(m.health as nat, 3),
        all_digits(buf.subrange(off_health(), off_health() + 3)),
        parsew(buf.subrange(off_health(), off_health() + 3)) == m.health,
        buf.subrange(off_health() + 3, off_age()) == tag_age(),
        buf.subrange(off_age(), off_age() + 10) == decw(m.age as nat, 10),
        all_digits(buf.subrange(off_age(), off_age() + 10)),
        parsew(buf.subrange(off_age(), off_age() + 10)) == m.age,
        buf.subrange(off_age() + 10, off_updated()) == tag_updated(),
        buf.subrange(off_updated(), off_updated() + 20) == decw(m.last_updated as nat, 20),
        all_digits(buf.subrange(off_updated(), off_updated() + 20)),
        parsew(buf.subrange(off_updated(), off_updated() + 20)) == m.last_updated,
        buf.subrange(off_updated() + 20, off_sleeping()) == tag_sleeping(),
        buf[off_sleeping()] == bool_byte(m.is_sleeping),
        buf.subrange(off_sleeping() + 1, off_alive()) == tag_alive(),
        buf[off_alive()] == bool_byte(m.is_alive),
        buf.subrange(off_alive() + 1, off_name()) == tag_name(),
        buf.subrange(off_name(), buf.len() as int) == encode_utf8(m.name@),
        valid_utf8(buf.subrange(off_name(), buf.len() as int)),
        decode_utf8(buf.subrange(off_name(), buf.len() as int)) == m.name@,
{
    lemma_pow10_widths();
    lemma_decw_digits(m.hunger as nat, 3);
    lemma_decw_digits(m.happiness as nat, 3);
    lemma_decw_digits(m.energy as nat, 3);
    lemma_decw_digits(m.health as nat, 3);
    lemma_decw_digits(m.age as nat, 10);
    lemma_decw_digits(m.last_updated as nat, 20);
    lemma_parse_decw(m.hunger as nat, 3);
    lemma_parse_decw(m.happiness as nat, 3);
    lemma_parse_decw(m.energy as nat, 3);
    lemma_parse_decw(m.health as nat, 3);
    lemma_parse_decw(m.age as nat, 10);
    lemma_parse_decw(m.last_updated as nat, 20);
    assert(buf.subrange(0, buf.len() as int) =~= buf);
    lemma_chop(buf, 0, tag_hunger(), from_hunger(m));
    lemma_chop(buf, off_hunger(), decw(m.hunger as nat, 3), tag_happiness() + from_happiness(m));
    lemma_chop(buf, off_hunger() + 3, tag_happiness(), from_happiness(m));
    lemma_chop(
        buf,
        off_happiness(),
        decw(m.happiness as nat, 3),
        tag_energy() + from_energy(m),
    );
    lemma_chop(buf, off_happiness() + 3, tag_energy(), from_energy(m));
    lemma_chop(buf, off_energy(), decw(m.energy as nat, 3), tag_health() + from_health(m));
    lemma_chop(buf, off_energy() + 3, tag_health(), from_health(m));
    lemma_chop(buf, off_health(), decw(m.health as nat, 3), tag_age() + from_age(m));
    lemma_chop(buf, off_health() + 3, tag_age(), from_age(m));
    lemma_chop(buf, off_age(), decw(m.age as nat, 10), tag_updated() + from_updated(m));
    lemma_chop(buf, off_age() + 10, tag_updated(), from_updated(m));
    lemma_chop(
        buf,
        off_updated(),
        decw(m.last_updated as nat, 20),
        tag_sleeping() + from_sleeping(m),
    );
    lemma_chop(buf, off_updated() + 20, tag_sleeping(), from_sleeping(m));
    lemma_chop(buf, off_sleeping(), seq![bool_byte(m.is_sleeping)], tag_alive() + from_alive(m));
    assert(buf[off_sleeping()] == buf.subrange(off_sleeping(), off_sleeping() + 1)[0]);
    lemma_chop(buf, off_sleeping() + 1, tag_alive(), from_alive(m));
    lemma_chop(buf, off_alive(), seq![bool_byte(m.is_alive)], tag_name() + encode_utf8(m.name@));
    assert(buf[off_alive()] == buf.subrange(off_alive(), off_alive() + 1)[0]);
    lemma_chop(buf, off_alive() + 1, tag_name(), encode_utf8(m.name@));
    encode_utf8_valid_utf8(m.name@);
    encode_utf8_decode_utf8(m.name@);
}

/// The record encoding is injective up to field equality: two records with
/// the same bytes agree in every field.
pub proof fn lemma_encode_injective(m1: Monster, m2: Monster)
    requires
        spec_encode(m1) == spec_encode(m2),
    ensures
        states_equal(m1, m2),
{
    let buf = spec_encode(m1);
    lemma_encode_fields(m1, buf);
    lemma_encode_fields(m2, buf);
}

/// Saving then loading round-trips: every well-formed record is decodable
/// from its own encoding, and any record encoding to the same bytes is
/// equal to it in every field, the timestamp included.
pub proof fn lemma_round_trip(m: Monster)
    requires
        m.wf(),
    ensures
        spec_decodable(spec_encode(m)),
        forall|m2: Monster| #[trigger] spec_encode(m2) == spec_encode(m) ==> states_equal(m, m2),
{
    assert(spec_decodable(spec_encode(m))) by {
        assert(m.wf() && spec_encode(m) == spec_encode(m));
    }
    assert forall|m2: Monster| #[trigger] spec_encode(m2) == spec_encode(m) implies states_equal(
        m,
        m2,
    ) by {
        lemma_encode_injective(m, m2);
    }
}

/// Appends the UTF-8 bytes of `s`.
fn push_str_bytes(out: &mut Vec<u8>, s: &str)
    ensures
        final(out)@ == old(out)@ + s.spec_bytes(),
{
    let mut b: Vec<u8> = s.as_bytes_vec();
    out.append(&mut b);
}

/// Encodes a record into the persistence format.
#[verifier::rlimit(100)]
pub fn encode_state(m: &Monster) -> (r: Vec<u8>)
    ensures
        r@ == spec_encode(*m),
{
    proof {
        lemma_pow10_widths();
    }
    let mut out: Vec<u8> = Vec::new();
    push_str_bytes(&mut out, "hunger=");
    let ghost l1 = out@;
    push_decimal(&mut out, m.hunger as u64, 3);
    let ghost l2 = out@;
    push_str_bytes(&mut out, "\nhappiness=");
    let ghost l3 = out@;
    push_decimal(&mut out, m.happiness as u64, 3);
    let ghost l4 = out@;
    push_str_bytes(&mut out, "\nenergy=");
    let ghost l5 = out@;
    push_decimal(&mut out, m.energy as u64, 3);
    let ghost l6 = out@;
    push_str_bytes(&mut out, "\nhealth=");
    let ghost l7 = out@;
    push_decimal(&mut out, m.health as u64, 3);
    let ghost l8 = out@;
    push_str_bytes(&mut out, "\nage=");
    let ghost l9 = out@;
    push_decimal(&mut out, m.age as u64, 10);
    let ghost l10 = out@;
    push_str_bytes(&mut out, "\nlast_updated=");
    let ghost l11 = out@;
    push_decimal(&mut out, m.last_updated, 20);
    let ghost l12 = out@;
    push_str_bytes(&mut out, "\nis_sleeping=");
    let ghost l13 = out@;
    out.push(if m.is_sleeping {
        49
    } else {
        48
    });
    let ghost l14 = out@;
    push_str_bytes(&mut out, "\nis_alive=");
    let ghost l15 = out@;
    out.push(if m.is_alive {
        49
    } else {
        48
    });
    let ghost l16 = out@;
    push_str_bytes(&mut out, "\nname=");
    let ghost l17 = out@;
    let mut nb: Vec<u8> = m.name.as_str().as_bytes_vec();
    out.append(&mut nb);
    proof {
        assert(l14 =~= l13 + seq![bool_byte(m.is_sleeping)]);
        assert(l16 =~= l15 + seq![bool_byte(m.is_alive)]);
        assert(out@ =~= l16 + (tag_name() + encode_utf8(m.name@)));
        assert(out@ =~= l15 + from_alive(*m));
        assert(out@ =~= l14 + (tag_alive() + from_alive(*m)));
        assert(out@ =~= l13 + from_sleeping(*m));
        assert(out@ =~= l12 + (tag_sleeping() + from_sleeping(*m)));
        assert(out@ =~= l11 + from_updated(*m));
        assert(out@ =~= l10 + (tag_updated() + from_updated(*m)));
        assert(out@ =~= l9 + from_age(*m));
        assert(out@ =~= l8 + (tag_age() + from_age(*m)));
        assert(out@ =~= l7 + from_health(*m));
        assert(out@ =~= l6 + (tag_health() + from_health(*m)));
        assert(out@ =~= l5 + from_energy(*m));
        assert(out@ =~= l4 + (tag_energy() + from_energy(*m)));
        assert(out@ =~= l3 + from_happiness(*m));
        assert(out@ =~= l2 + (tag_happiness() + from_happiness(*m)));
        assert(out@ =~= l1 + from_hunger(*m));
        assert(l1 =~= tag_hunger());
        assert(out@ =~= spec_encode(*m));
    }
    out
}

/// Rebuilds an encoding from the pieces decoding has gathered.
#[verifier::rlimit(100)]
proof fn lemma_fields_to_encode(m: Monster, buf: Seq<u8>)
    requires
        buf.len() == off_name() + encode_utf8(m.name@).len(),
        buf.subrange(0, off_hunger()) == tag_hunger(),
        buf.subrange(off_hunger(), off_hunger() + 3) == decw(m.hunger as nat, 3),
        buf.subrange(off_hunger() + 3, off_happiness()) == tag_happiness(),
        buf.subrange(off_happiness(), off_happiness() + 3) == decw(m.happiness as nat, 3),
        buf.subrange(off_happiness() + 3, off_energy()) == tag_energy(),
        buf.subrange(off_energy(), off_energy() + 3) == decw(m.energy as nat, 3),
        buf.subrange(off_energy() + 3, off_health()) == tag_health(),
        buf.subrange(off_health(), off_health() + 3) == decw(m.health as nat, 3),
        buf.subrange(off_health() + 3, off_age()) == tag_age(),
        buf.subrange(off_age(), off_age() + 10) == decw(m.age as nat, 10),
        buf.subrange(off_age() + 10, off_updated()) == tag_updated(),
        buf.subrange(off_updated(), off_updated() + 20) == decw(m.last_updated as nat, 20),
        buf.subrange(off_updated() + 20, off_sleeping()) == tag_sleeping(),
        buf.subrange(off_sleeping(), off_sleeping() + 1) == seq![bool_byte(m.is_sleeping)],
        buf.subrange(off_sleeping() + 1, off_alive()) == tag_alive(),
        buf.subrange(off_alive(), off_alive() + 1) == seq![bool_byte(m.is_alive)],
        buf.subrange(off_alive() + 1, off_name()) == tag_name(),
        buf.subrange(off_name(), buf.len() as int) == encode_utf8(m.name@),
    ensures
        buf == spec_encode(m),
{
    lemma_decw_digits(m.hunger as nat, 3);
    lemma_decw_digits(m.happiness as nat, 3);
    lemma_decw_digits(m.energy as nat, 3);
    lemma_decw_digits(m.health as nat, 3);
    lemma_decw_digits(m.age as nat, 10);
    lemma_decw_digits(m.last_updated as nat, 20);
    lemma_glue(buf, off_alive() + 1, tag_name(), encode_utf8(m.name@));
    lemma_glue(buf, off_alive(), seq![bool_byte(m.is_alive)], tag_name() + encode_utf8(m.name@));
    lemma_glue(buf, off_sleeping() + 1, tag_alive(), from_alive(m));
    lemma_glue(buf, off_sleeping(), seq![bool_byte(m.is_sleeping)], tag_alive() + from_alive(m));
    lemma_glue(buf, off_updated() + 20, tag_sleeping(), from_sleeping(m));
    lemma_glue(
        buf,
        off_updated(),
        decw(m.last_updated as nat, 20),
        tag_sleeping() + from_sleeping(m),
    );
    lemma_glue(buf, off_age() + 10, tag_updated(), from_updated(m));
    lemma_glue(buf, off_age(), decw(m.age as nat, 10), tag_updated() + from_updated(m));
    lemma_glue(buf, off_health() + 3, tag_age(), from_age(m));
    lemma_glue(buf, off_health(), decw(m.health as nat, 3), tag_age() + from_age(m));
    lemma_glue(buf, off_energy() + 3, tag_health(), from_health(m));
    lemma_glue(buf, off_energy(), decw(m.energy as nat, 3), tag_health() + from_health(m));
    lemma_glue(buf, off_happiness() + 3, tag_energy(), from_energy(m));
    lemma_glue(
        buf,
        off_happiness(),
        decw(m.happiness as nat, 3),
        tag_energy() + from_energy(m),
    );
    lemma_glue(buf, off_hunger() + 3, tag_happiness(), from_happiness(m));
    lemma_glue(buf, off_hunger(), decw(m.hunger as nat, 3), tag_happiness() + from_happiness(m));
    lemma_glue(buf, 0, tag_hunger(), from_hunger(m));
    assert(buf =~= buf.subrange(0, buf.len() as int));
}

/// Checks that `tag`'s bytes stand at `pos`; returns the position after.
fn match_tag(buf: &Vec<u8>, pos: usize, tag: &str) -> (r: Option<usize>)
    ensures
        match r {
            Some(p) => pos + tag.spec_bytes().len() <= buf@.len() && p == pos
                + tag.spec_bytes().len() && buf@.subrange(pos as int, p as int)
                == tag.spec_bytes(),
            None => !(pos + tag.spec_bytes().len() <= buf@.len() && buf@.subrange(
                pos as int,
                pos + tag.spec_bytes().len(),
            ) == tag.spec_bytes()),
        },
{
    let t: Vec<u8> = tag.as_bytes_vec();
    let n: usize = buf.len();
    if pos > n || n - pos < t.len() {
        return None;
    }
    let mut i: usize = 0;
    while i < t.len()
        invariant
            pos + t@.len() <= n == buf@.len(),
            t@ == tag.spec_bytes(),
            0 <= i <= t@.len(),
            forall|j: int| 0 <= j < i ==> buf@[pos + j] == t@[j],
        decreases t@.len() - i,
    {
        if buf[pos + i] != t[i] {
            proof {
                let win = buf@.subrange(pos as int, pos + tag.spec_bytes().len());
                assert(win[i as int] == buf@[pos + i]);
            }
            return None;
        }
        i = i + 1;
    }
    proof {
        assert(buf@.subrange(pos as int, pos + t@.len()) =~= t@);
    }
    Some(pos + t.len())
}

/// Reads one fixed-width numeric field and checks its upper bound.
fn read_field(buf: &Vec<u8>, pos: usize, width: usize, maxv: u64) -> (r: Option<u64>)
    ensures
        match r {
            Some(v) => pos + width <= buf@.len() && all_digits(
                buf@.subrange(pos as int, (pos + width) as int),
            ) && parsew(buf@.subrange(pos as int, (pos + width) as int)) == v && v <= maxv,
            None => !(pos + width <= buf@.len() && all_digits(
                buf@.subrange(pos as int, (pos + width) as int),
            ) && parsew(buf@.subrange(pos as int, (pos + width) as int)) <= maxv),
        },
{
    let n: usize = buf.len();
    if pos > n || n - pos < width {
        return None;
    }
    match read_decimal(buf, pos, width) {
        Some(v) => {
            if v <= maxv {
                Some(v)
            } else {
                None
            }
        },
        None => None,
    }
}

/// Reads one boolean field byte.
fn read_bool(buf: &Vec<u8>, pos: usize) -> (r: Option<bool>)
    ensures
        match r {
            Some(b) => pos < buf@.len() && buf@.subrange(pos as int, pos + 1) == seq![
                bool_byte(b),
            ],
            None => !(pos < buf@.len() && (buf@[pos as int] == 48 || buf@[pos as int] == 49)),
        },
{
    if pos >= buf.len() {
        return None;
    }
    let b: u8 = buf[pos];
    if b == 48 {
        proof {
            assert(buf@.subrange(pos as int, pos + 1) =~= seq![bool_byte(false)]);
        }
        Some(false)
    } else if b == 49 {
        proof {
            assert(buf@.subrange(pos as int, pos + 1) =~= seq![bool_byte(true)]);
        }
        Some(true)
    } else {
        None
    }
}

/// Copies the bytes from `pos` to the end.
fn read_tail(buf: &Vec<u8>, pos: usize) -> (r: Vec<u8>)
    requires
        pos <= buf@.len(),
    ensures
        r@ == buf@.subrange(pos as int, buf@.len() as int),
{
    let n: usize = buf.len();
    let mut out: Vec<u8> = Vec::new();
    let mut i: usize = pos;
    while i < n
        invariant
            pos <= i <= n == buf@.len(),
            out@ == buf@.subrange(pos as int, i as int),
        decreases n - i,
    {
        out.push(buf[i]);
        proof {
            assert(buf@.subrange(pos as int, (i + 1) as int) =~= buf@.subrange(
                pos as int,
                i as int,
            ).push(buf@[i as int]));
        }
        i = i + 1;
    }
    out
}

/// Decodes a persistence record: succeeds exactly on the encodings of
/// well-formed records, and returns the record the bytes encode.
#[verifier::rlimit(100)]
pub fn decode_state(buf: &Vec<u8>) -> (r: Option<Monster>)
    ensures
        match r {
            Some(m) => m.wf() && buf@ == spec_encode(m),
            None => !spec_decodable(buf@),
        },
{
    proof {
        lemma_pow10_widths();
        if spec_decodable(buf@) {
            let m = choose|mm: Monster| mm.wf() && buf@ == #[trigger] spec_encode(mm);
            lemma_encode_fields(m, buf@);
        }
    }
    proof {
        vstd::std_specs::vec::axiom_spec_len(buf);
    }
    let p1: usize = match match_tag(buf, 0, "hunger=") {
        Some(p) => p,
        None => {
            return None;
        },
    };
    let hunger: u64 = match read_field(buf, p1, 3, 100) {
        Some(v) => v,
        None => {
            return None;
        },
    };
    let p2: usize = match match_tag(buf, p1 + 3, "\nhappiness=") {
        Some(p) => p,
        None => {
            return None;
        },
    };
    let happiness: u64 = match read_field(buf, p2, 3, 100) {
        Some(v) => v,
        None => {
            return None;
        },
    };
    let p3: usize = match match_tag(buf, p2 + 3, "\nenergy=") {
        Some(p) => p,
        None => {
            return None;
        },
    };
    let energy: u64 = match read_field(buf, p3, 3, 100) {
        Some(v) => v,
        None => {
            return None;
        },
    };
    let p4: usize = match match_tag(buf, p3 + 3, "\nhealth=") {
        Some(p) => p,
        None => {
            return None;
        },
    };
    let health: u64 = match read_field(buf, p4, 3, 100) {
        Some(v) => v,
        None => {
            return None;
        },
    };
    let p5: usize = match match_tag(buf, p4 + 3, "\nage=") {
        Some(p) => p,
        None => {
            return None;
        },
    };
    let age: u64 = match read_field(buf, p5, 10, u32::MAX as u64) {
        Some(v) => v,
        None => {
            return None;
        },
    };
    let p6: usize = match match_tag(buf, p5 + 10, "\nlast_updated=") {
        Some(p) => p,
        None => {
            return None;
        },
    };
    let updated: u64 = match read_field(buf, p6, 20, u64::MAX) {
        Some(v) => v,
        None => {
            return None;
        },
    };
    let p7: usize = match match_tag(buf, p6 + 20, "\nis_sleeping=") {
        Some(p) => p,
        None => {
            return None;
        },
    };
    let sleeping: bool = match read_bool(buf, p7) {
        Some(b) => b,
        None => {
            return None;
        },
    };
    let p8: usize = match match_tag(buf, p7 + 1, "\nis_alive=") {
        Some(p) => p,
        None => {
            return None;
        },
    };
    let alive: bool = match read_bool(buf, p8) {
        Some(b) => b,
        None => {
            return None;
        },
    };
    let p9: usize = match match_tag(buf, p8 + 1, "\nname=") {
        Some(p) => p,
        None => {
            return None;
        },
    };
    let tail: Vec<u8> = read_tail(buf, p9);
    let ghost tailv = tail@;
    let name: String = match crate::ports::bytes_to_string(tail) {
        Some(s) => s,
        None => {
            return None;
        },
    };
    let m2 = Monster {
        name,
        hunger: hunger as u8,
        happiness: happiness as u8,
        energy: energy as u8,
        health: health as u8,
        age: age as u32,
        is_sleeping: sleeping,
        is_alive: alive,
        last_updated: updated,
    };
    proof {
        lemma_decw_parse(buf@.subrange(p1 as int, p1 + 3));
        lemma_decw_parse(buf@.subrange(p2 as int, p2 + 3));
        lemma_decw_parse(buf@.subrange(p3 as int, p3 + 3));
        lemma_decw_parse(buf@.subrange(p4 as int, p4 + 3));
        lemma_decw_parse(buf@.subrange(p5 as int, p5 + 10));
        lemma_decw_parse(buf@.subrange(p6 as int, p6 + 20));
        decode_utf8_encode_utf8(tailv);
        assert(encode_utf8(m2.name@) == tailv);
        lemma_fields_to_encode(m2, buf@);
    }
    Some(m2)
}

} // verus!

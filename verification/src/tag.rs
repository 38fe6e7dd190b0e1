//! The checkpoint object: a signed tag, assembled and taken apart by hand.
//!
//! A signed tag is its metadata followed directly by an armored detached
//! signature over exactly that metadata. The metadata is built here field by
//! field, and a stored tag is split at the start of its signature.

use vstd::prelude::*;
use vstd::string::*;
use vstd::utf8::valid_utf8;
use crate::bytes::{
    absent, append, find, first_occurrence, lemma_first_occurrence, occurs_at, starts_with, text,
};
use crate::config::TAG_NAME;
use crate::payload::{
    lemma_line_len_bounds, lemma_line_len_shape, lemma_lines_cons, lemma_unsigned_object_is_kept,
    line_len, lines, signature_keyword, signed_commit_data, single_line, spec_signed_commit_data,
    strip_signature, LF,
};
use crate::signature::armor_marker;

verus! {

/// The fixed message of every checkpoint.
pub const BASE_MESSAGE: &'static str = "Verification tag managed by git-sign-verifier";

/// The identity that signs a checkpoint, and when it does so.
#[derive(Clone, Debug, PartialEq, Eq)]
pub struct Tagger {
    /// Name of the local signing identity.
    pub name: Vec<u8>,
    /// Mail address of the local signing identity.
    pub email: Vec<u8>,
    /// Seconds since the epoch.
    pub seconds: i64,
    /// Offset of local time from UTC, in minutes.
    pub offset_minutes: i32,
}

/// The ASCII digit for `d`.
pub open spec fn digit(d: nat) -> u8
    recommends
        d < 10,
{
    (48 + d) as u8
}

/// The decimal digits of `n`, most significant first, without padding.
pub open spec fn decimal(n: nat) -> Seq<u8>
    decreases n,
{
    if n < 10 {
        seq![digit(n)]
    } else {
        decimal(n / 10).push(digit(n % 10))
    }
}

/// Magnitude of `i`.
pub open spec fn magnitude(i: int) -> nat {
    if i < 0 {
        (-i) as nat
    } else {
        i as nat
    }
}

/// `i` in decimal, with a minus sign where it is negative.
pub open spec fn signed_decimal(i: int) -> Seq<u8> {
    if i < 0 {
        seq![45u8] + decimal(magnitude(i))
    } else {
        decimal(magnitude(i))
    }
}

/// `n` in decimal with at least two digits: one digit is led by a zero.
pub open spec fn two_digits(n: nat) -> Seq<u8> {
    if n < 10 {
        seq![48u8, digit(n)]
    } else {
        decimal(n)
    }
}

/// The zone field: the offset from UTC as a sign, always present, then the
/// whole hours of the offset in two digits, then the minutes left over in
/// two digits. Five and a half hours east, 330 minutes, read `+0530`.
pub open spec fn zone_field(offset_minutes: int) -> Seq<u8> {
    let sign = if offset_minutes < 0 {
        45u8
    } else {
        43u8
    };
    seq![sign] + two_digits(magnitude(offset_minutes) / 60) + two_digits(
        magnitude(offset_minutes) % 60,
    )
}

/// The tagger line without its line feed: who signs, when, and in which
/// zone.
pub open spec fn spec_tagger_line(tagger: Tagger) -> Seq<u8> {
    text("tagger ") + tagger.name@ + text(" <") + tagger.email@ + text("> ") + signed_decimal(
        tagger.seconds as int,
    ) + text(" ") + zone_field(tagger.offset_minutes as int)
}

/// The header of a checkpoint that points at the commit `target`: the
/// target, the type of the target, the checkpoint's name and the tagger
/// line, in that order, each ended by a line feed.
pub open spec fn spec_tag_header(target: Seq<u8>, tagger: Tagger) -> Seq<u8> {
    (text("object ") + target + seq![LF]) + (text("type commit") + seq![LF]) + (text("tag ")
        + text(TAG_NAME) + seq![LF]) + (spec_tagger_line(tagger) + seq![LF])
}

/// The body of every checkpoint: the fixed message and a line feed.
pub open spec fn spec_tag_body() -> Seq<u8> {
    text(BASE_MESSAGE) + seq![LF]
}

/// The metadata of a checkpoint, which is also what its signature covers:
/// the signed bytes of an object with that header and that body.
pub open spec fn spec_tag_content(target: Seq<u8>, tagger: Tagger) -> Seq<u8> {
    spec_signed_commit_data(spec_tag_header(target, tagger), spec_tag_body())
}

/// Decimal digits are digits.
pub proof fn lemma_decimal_digits(n: nat)
    ensures
        decimal(n).len() >= 1,
        forall|i: int| 0 <= i < decimal(n).len() ==> 48 <= #[trigger] decimal(n)[i] <= 57,
    decreases n,
{
    if n >= 10 {
        lemma_decimal_digits(n / 10);
    }
}

/// The tagger line of a tagger whose name and address hold no line feed
/// is one line that begins with `t`.
pub proof fn lemma_tagger_line(tagger: Tagger)
    requires
        single_line(tagger.name@),
        single_line(tagger.email@),
    ensures
        single_line(spec_tagger_line(tagger)),
        spec_tagger_line(tagger).len() > 0,
        spec_tagger_line(tagger)[0] == 116,
{
    reveal_strlit("tagger ");
    reveal_strlit(" <");
    reveal_strlit("> ");
    reveal_strlit(" ");
    is_ascii_spec_bytes("tagger ");
    is_ascii_spec_bytes(" <");
    is_ascii_spec_bytes("> ");
    is_ascii_spec_bytes(" ");
    lemma_decimal_digits(magnitude(tagger.seconds as int));
    lemma_decimal_digits(magnitude(tagger.offset_minutes as int) / 60);
    lemma_decimal_digits(magnitude(tagger.offset_minutes as int) % 60);
}

/// A line that does not begin with `g` does not open a signature.
proof fn lemma_other_keyword(line: Seq<u8>)
    requires
        line.len() > 0,
        line[0] != 103,
    ensures
        !starts_with(line, signature_keyword()),
{
    reveal_strlit("gpgsig ");
    is_ascii_spec_bytes("gpgsig ");
    if starts_with(line, signature_keyword()) {
        assert(line.subrange(0, signature_keyword().len() as int)[0] == signature_keyword()[0]);
    }
}

/// The metadata of a checkpoint is laid out as its four header lines, one
/// blank line, and the fixed message on a line of its own, wherever the
/// target, the name and the address hold no line feed.
pub proof fn lemma_tag_content_layout(target: Seq<u8>, tagger: Tagger)
    requires
        single_line(target),
        single_line(tagger.name@),
        single_line(tagger.email@),
    ensures
        spec_tag_content(target, tagger) == spec_tag_header(target, tagger) + seq![LF]
            + spec_tag_body(),
{
    reveal_strlit("object ");
    reveal_strlit("type commit");
    reveal_strlit("tag ");
    reveal_strlit("SIGN_VERIFIED");
    is_ascii_spec_bytes("object ");
    is_ascii_spec_bytes("type commit");
    is_ascii_spec_bytes("tag ");
    is_ascii_spec_bytes("SIGN_VERIFIED");
    lemma_tagger_line(tagger);
    let l1 = text("object ") + target;
    let l2 = text("type commit");
    let l3 = text("tag ") + text(TAG_NAME);
    let l4 = spec_tagger_line(tagger);
    let empty = Seq::<u8>::empty();
    let r4 = l4 + seq![LF] + empty;
    let r3 = l3 + seq![LF] + r4;
    let r2 = l2 + seq![LF] + r3;
    let r1 = l1 + seq![LF] + r2;
    assert(r1 =~= spec_tag_header(target, tagger));
    lemma_lines_cons(l4, empty);
    lemma_lines_cons(l3, r4);
    lemma_lines_cons(l2, r3);
    lemma_lines_cons(l1, r2);
    lemma_other_keyword(l1 + seq![LF]);
    lemma_other_keyword(l2 + seq![LF]);
    lemma_other_keyword(l3 + seq![LF]);
    lemma_other_keyword(l4 + seq![LF]);
    lemma_unsigned_object_is_kept(spec_tag_header(target, tagger), spec_tag_body());
}

/// One of the bytes that the armor marker is made of.
spec fn marker_byte(b: u8) -> bool {
    b == 45 || b == 66 || b == 69 || b == 71 || b == 73 || b == 78
}

/// The text is not empty and its last byte is none of the marker's.
spec fn ends_clear(s: Seq<u8>) -> bool {
    s.len() > 0 && !marker_byte(s.last())
}

/// The text is not empty and its first byte is none of the marker's.
spec fn starts_clear(s: Seq<u8>) -> bool {
    s.len() > 0 && !marker_byte(s[0])
}

/// Nowhere in `s` do two dashes stand side by side.
spec fn no_double_dash(s: Seq<u8>) -> bool {
    forall|p: int| 0 <= p && p + 1 < s.len() ==> !(#[trigger] s[p] == 45 && s[p + 1] == 45)
}

/// The armor marker is ten marker bytes that begin with two dashes.
proof fn lemma_armor_marker()
    ensures
        armor_marker().len() == 10,
        armor_marker()[0] == 45,
        armor_marker()[1] == 45,
        forall|k: int| 0 <= k < 10 ==> marker_byte(#[trigger] armor_marker()[k]),
{
    reveal_strlit("-----BEGIN");
    is_ascii_spec_bytes("-----BEGIN");
}

/// A text without two dashes side by side holds no armor marker.
proof fn lemma_no_double_dash_is_absent(s: Seq<u8>)
    requires
        no_double_dash(s),
    ensures
        absent(s, armor_marker()),
{
    lemma_armor_marker();
    assert forall|j: int| !occurs_at(s, armor_marker(), j) by {
        if occurs_at(s, armor_marker(), j) {
            let found = s.skip(j).subrange(0, 10);
            assert(found[0] == s[j]);
            assert(found[1] == s[j + 1]);
        }
    }
}

/// The parts of a text without armor marker hold none.
proof fn lemma_absent_parts(a: Seq<u8>, b: Seq<u8>)
    requires
        absent(a + b, armor_marker()),
    ensures
        absent(a, armor_marker()),
        absent(b, armor_marker()),
{
    lemma_armor_marker();
    let joined = a + b;
    assert forall|j: int| !occurs_at(a, armor_marker(), j) by {
        if occurs_at(a, armor_marker(), j) {
            assert(joined.skip(j).subrange(0, 10) =~= a.skip(j).subrange(0, 10));
            assert(occurs_at(joined, armor_marker(), j));
        }
    }
    assert forall|j: int| !occurs_at(b, armor_marker(), j) by {
        if occurs_at(b, armor_marker(), j) {
            assert(joined.skip(j + a.len()).subrange(0, 10) =~= b.skip(j).subrange(0, 10));
            assert(occurs_at(joined, armor_marker(), j + a.len()));
        }
    }
}

/// Joining two texts without armor marker makes none, unless the first
/// ends and the second begins with bytes of the marker.
proof fn lemma_marker_join(a: Seq<u8>, b: Seq<u8>)
    requires
        absent(a, armor_marker()),
        absent(b, armor_marker()),
        a.len() == 0 || b.len() == 0 || !marker_byte(a.last()) || !marker_byte(b[0]),
    ensures
        absent(a + b, armor_marker()),
{
    lemma_armor_marker();
    let joined = a + b;
    assert forall|j: int| !occurs_at(joined, armor_marker(), j) by {
        if occurs_at(joined, armor_marker(), j) {
            let found = joined.skip(j).subrange(0, 10);
            if j + 10 <= a.len() {
                assert(a.skip(j).subrange(0, 10) =~= found);
                assert(occurs_at(a, armor_marker(), j));
            } else if j >= a.len() {
                assert(b.skip(j - a.len()).subrange(0, 10) =~= found);
                assert(occurs_at(b, armor_marker(), j - a.len()));
            } else {
                let k = a.len() - 1 - j;
                assert(found[k] == a.last());
                assert(found[k + 1] == b[0]);
            }
        }
    }
}

/// A text without marker that ends clear, after one that ends clear.
proof fn lemma_join_after(a: Seq<u8>, b: Seq<u8>)
    requires
        absent(a, armor_marker()),
        ends_clear(a),
        absent(b, armor_marker()),
        ends_clear(b),
    ensures
        absent(a + b, armor_marker()),
        ends_clear(a + b),
{
    lemma_marker_join(a, b);
    assert((a + b).last() == b.last());
}

/// Any text without marker, between one that ends clear and one that
/// starts and ends clear.
proof fn lemma_join_between(a: Seq<u8>, b: Seq<u8>, c: Seq<u8>)
    requires
        absent(a, armor_marker()),
        ends_clear(a),
        absent(b, armor_marker()),
        absent(c, armor_marker()),
        starts_clear(c),
        ends_clear(c),
    ensures
        absent(a + b + c, armor_marker()),
        ends_clear(a + b + c),
{
    lemma_marker_join(a, b);
    lemma_marker_join(a + b, c);
    assert((a + b + c).last() == c.last());
}

/// The fixed texts of a header hold no armor marker and start and end
/// clear.
proof fn lemma_fixed_texts_are_clear()
    ensures
        absent(text("object "), armor_marker()) && ends_clear(text("object ")),
        absent(text("type commit"), armor_marker()) && ends_clear(text("type commit")),
        absent(text("tag "), armor_marker()) && ends_clear(text("tag ")),
        absent(text(TAG_NAME), armor_marker()) && ends_clear(text(TAG_NAME)),
        absent(text("tagger "), armor_marker()) && ends_clear(text("tagger ")),
        absent(text(" <"), armor_marker()) && starts_clear(text(" <")) && ends_clear(text(" <")),
        absent(text("> "), armor_marker()) && starts_clear(text("> ")) && ends_clear(text("> ")),
        absent(text(" "), armor_marker()) && ends_clear(text(" ")),
        absent(seq![LF], armor_marker()) && starts_clear(seq![LF]) && ends_clear(seq![LF]),
{
    reveal_strlit("object ");
    reveal_strlit("type commit");
    reveal_strlit("tag ");
    reveal_strlit("SIGN_VERIFIED");
    reveal_strlit("tagger ");
    reveal_strlit(" <");
    reveal_strlit("> ");
    reveal_strlit(" ");
    is_ascii_spec_bytes("object ");
    is_ascii_spec_bytes("type commit");
    is_ascii_spec_bytes("tag ");
    is_ascii_spec_bytes("SIGN_VERIFIED");
    is_ascii_spec_bytes("tagger ");
    is_ascii_spec_bytes(" <");
    is_ascii_spec_bytes("> ");
    is_ascii_spec_bytes(" ");
    lemma_no_double_dash_is_absent(text("object "));
    lemma_no_double_dash_is_absent(text("type commit"));
    lemma_no_double_dash_is_absent(text("tag "));
    lemma_no_double_dash_is_absent(text(TAG_NAME));
    lemma_no_double_dash_is_absent(text("tagger "));
    lemma_no_double_dash_is_absent(text(" <"));
    lemma_no_double_dash_is_absent(text("> "));
    lemma_no_double_dash_is_absent(text(" "));
    lemma_no_double_dash_is_absent(seq![LF]);
}

/// The fixed message holds no armor marker and ends clear.
proof fn lemma_message_is_clear()
    ensures
        absent(text(BASE_MESSAGE), armor_marker()),
        ends_clear(text(BASE_MESSAGE)),
{
    reveal_strlit("Verification tag managed by git-sign-verifier");
    is_ascii_spec_bytes("Verification tag managed by git-sign-verifier");
    lemma_no_double_dash_is_absent(text(BASE_MESSAGE));
}

/// Numbers hold no armor marker and end clear, signed or not.
proof fn lemma_numbers_are_clear(seconds: int, offset_minutes: int)
    ensures
        absent(signed_decimal(seconds), armor_marker()),
        ends_clear(signed_decimal(seconds)),
        absent(zone_field(offset_minutes), armor_marker()),
        ends_clear(zone_field(offset_minutes)),
{
    lemma_decimal_digits(magnitude(seconds));
    lemma_decimal_digits(magnitude(offset_minutes) / 60);
    lemma_decimal_digits(magnitude(offset_minutes) % 60);
    let hours = two_digits(magnitude(offset_minutes) / 60);
    let minutes = two_digits(magnitude(offset_minutes) % 60);
    assert(no_double_dash(signed_decimal(seconds)));
    assert(forall|i: int| 0 <= i < hours.len() ==> 48 <= #[trigger] hours[i] <= 57);
    assert(forall|i: int| 0 <= i < minutes.len() ==> 48 <= #[trigger] minutes[i] <= 57);
    assert(no_double_dash(zone_field(offset_minutes)));
    lemma_no_double_dash_is_absent(signed_decimal(seconds));
    lemma_no_double_dash_is_absent(zone_field(offset_minutes));
}

/// The header of a checkpoint holds no armor marker and ends with a line
/// feed, wherever the target, the name and the address hold none.
proof fn lemma_tag_header_has_no_marker(target: Seq<u8>, tagger: Tagger)
    requires
        absent(target, armor_marker()),
        absent(tagger.name@, armor_marker()),
        absent(tagger.email@, armor_marker()),
    ensures
        absent(spec_tag_header(target, tagger), armor_marker()),
        spec_tag_header(target, tagger).last() == LF,
        spec_tag_header(target, tagger).len() > 0,
{
    lemma_fixed_texts_are_clear();
    lemma_numbers_are_clear(tagger.seconds as int, tagger.offset_minutes as int);
    let line_feed = seq![LF];
    let seconds = signed_decimal(tagger.seconds as int);
    let zone = zone_field(tagger.offset_minutes as int);
    let a1 = text("object ") + target + line_feed;
    lemma_join_between(text("object "), target, line_feed);
    let a2 = a1 + text("type commit");
    lemma_join_after(a1, text("type commit"));
    let a3 = a2 + line_feed;
    lemma_join_after(a2, line_feed);
    let a4 = a3 + text("tag ");
    lemma_join_after(a3, text("tag "));
    let a5 = a4 + text(TAG_NAME);
    lemma_join_after(a4, text(TAG_NAME));
    let a6 = a5 + line_feed;
    lemma_join_after(a5, line_feed);
    let a7 = a6 + text("tagger ");
    lemma_join_after(a6, text("tagger "));
    let a8 = a7 + tagger.name@ + text(" <");
    lemma_join_between(a7, tagger.name@, text(" <"));
    let a9 = a8 + tagger.email@ + text("> ");
    lemma_join_between(a8, tagger.email@, text("> "));
    let a10 = a9 + seconds;
    lemma_join_after(a9, seconds);
    let a11 = a10 + text(" ");
    lemma_join_after(a10, text(" "));
    let a12 = a11 + zone;
    lemma_join_after(a11, zone);
    let a13 = a12 + line_feed;
    lemma_join_after(a12, line_feed);
    assert(a13 =~= spec_tag_header(target, tagger));
    assert(a13.last() == line_feed.last());
}

/// Taking the embedded signature out of a header that holds no armor
/// marker and ends with a line feed leaves a text of that kind.
proof fn lemma_strip_keeps_absent(header: Seq<u8>, in_signature: bool)
    requires
        absent(header, armor_marker()),
        header.len() == 0 || header.last() == LF,
    ensures
        absent(strip_signature(lines(header), in_signature), armor_marker()),
        strip_signature(lines(header), in_signature).len() == 0 || strip_signature(
            lines(header),
            in_signature,
        ).last() == LF,
    decreases header.len(),
{
    if header.len() == 0 {
        lemma_no_double_dash_is_absent(Seq::empty());
    } else {
        lemma_line_len_bounds(header);
        lemma_line_len_shape(header);
        let n = line_len(header) as int;
        let line = header.take(n);
        let rest = header.skip(n);
        assert(header =~= line + rest);
        lemma_absent_parts(line, rest);
        assert(line.last() == LF);
        if rest.len() > 0 {
            assert(rest.last() == header.last());
        }
        lemma_strip_keeps_absent(rest, true);
        lemma_strip_keeps_absent(rest, false);
        assert(lines(header).drop_first() =~= lines(rest));
        let kept = strip_signature(lines(rest), false);
        lemma_marker_join(line, kept);
        if kept.len() > 0 {
            assert((line + kept).last() == kept.last());
        } else {
            assert(line + kept =~= line);
        }
    }
}

/// The metadata of a checkpoint holds no armor marker, wherever the
/// target, the name and the address hold none.
pub proof fn lemma_tag_content_has_no_marker(target: Seq<u8>, tagger: Tagger)
    requires
        absent(target, armor_marker()),
        absent(tagger.name@, armor_marker()),
        absent(tagger.email@, armor_marker()),
    ensures
        absent(spec_tag_content(target, tagger), armor_marker()),
{
    lemma_tag_header_has_no_marker(target, tagger);
    lemma_strip_keeps_absent(spec_tag_header(target, tagger), false);
    lemma_fixed_texts_are_clear();
    lemma_message_is_clear();
    let line_feed = seq![LF];
    let kept = strip_signature(lines(spec_tag_header(target, tagger)), false);
    let a1 = kept + line_feed;
    lemma_marker_join(kept, line_feed);
    assert(a1.last() == line_feed.last());
    let a2 = a1 + text(BASE_MESSAGE);
    lemma_join_after(a1, text(BASE_MESSAGE));
    let a3 = a2 + line_feed;
    lemma_join_after(a2, line_feed);
    assert(spec_tag_content(target, tagger) =~= a3);
}

/// Appends the decimal digits of `n` to `out`.
pub fn push_decimal(out: &mut Vec<u8>, n: u64)
    ensures
        final(out)@ == old(out)@ + decimal(n as nat),
    decreases n,
{
    if n >= 10 {
        push_decimal(out, n / 10);
    }
    let d: u8 = (n % 10) as u8;
    out.push(48 + d);
}

/// Magnitude of a 64-bit integer.
pub fn magnitude_of(i: i64) -> (m: u64)
    ensures
        m == magnitude(i as int),
{
    if i < 0 {
        ((-(i + 1)) as u64) + 1
    } else {
        i as u64
    }
}

/// Appends `i` in decimal to `out`, with a minus sign where it is negative.
pub fn push_signed_decimal(out: &mut Vec<u8>, i: i64)
    ensures
        final(out)@ == old(out)@ + signed_decimal(i as int),
{
    if i < 0 {
        out.push(45);
    }
    push_decimal(out, magnitude_of(i));
}

/// Appends `n` in decimal with at least two digits to `out`.
pub fn push_two_digits(out: &mut Vec<u8>, n: u64)
    ensures
        final(out)@ == old(out)@ + two_digits(n as nat),
{
    if n < 10 {
        out.push(48);
    }
    push_decimal(out, n);
}

/// Appends the zone field for an offset in minutes to `out`.
pub fn push_zone_field(out: &mut Vec<u8>, offset_minutes: i32)
    ensures
        final(out)@ == old(out)@ + zone_field(offset_minutes as int),
{
    let minutes: u64 = magnitude_of(offset_minutes as i64);
    if offset_minutes < 0 {
        out.push(45);
    } else {
        out.push(43);
    }
    push_two_digits(out, minutes / 60);
    push_two_digits(out, minutes % 60);
}

/// Builds the metadata of a checkpoint that points at the commit `target`.
/// These are the bytes to sign, and the first part of the stored object.
pub fn tag_content(target: &[u8], tagger: &Tagger) -> (content: Vec<u8>)
    ensures
        content@ == spec_tag_content(target@, *tagger),
{
    let mut header: Vec<u8> = Vec::new();
    append(&mut header, "object ".as_bytes());
    append(&mut header, target);
    header.push(LF);
    append(&mut header, "type commit".as_bytes());
    header.push(LF);
    append(&mut header, "tag ".as_bytes());
    append(&mut header, TAG_NAME.as_bytes());
    header.push(LF);
    append(&mut header, "tagger ".as_bytes());
    append(&mut header, tagger.name.as_slice());
    append(&mut header, " <".as_bytes());
    append(&mut header, tagger.email.as_slice());
    append(&mut header, "> ".as_bytes());
    push_signed_decimal(&mut header, tagger.seconds);
    append(&mut header, " ".as_bytes());
    push_zone_field(&mut header, tagger.offset_minutes);
    header.push(LF);
    assert(header@ =~= spec_tag_header(target@, *tagger));
    let mut body: Vec<u8> = Vec::new();
    append(&mut body, BASE_MESSAGE.as_bytes());
    body.push(LF);
    signed_commit_data(header.as_slice(), body.as_slice())
}

/// Joins the metadata of a checkpoint and the armored signature over it
/// into the bytes of the object to store.
pub fn signed_tag(content: &[u8], signature: &[u8]) -> (object: Vec<u8>)
    ensures
        object@ == content@ + signature@,
{
    let mut object: Vec<u8> = Vec::new();
    append(&mut object, content);
    append(&mut object, signature);
    object
}

/// Where the signature of a stored tag starts: at the first armor marker.
/// The bytes before it are the signed metadata, the bytes from it on are
/// the signature block.
pub open spec fn spec_signature_start(raw: Seq<u8>) -> Option<int> {
    first_occurrence(raw, armor_marker())
}

/// A stored checkpoint splits into what was joined to make it.
///
/// Where the metadata holds no armor marker and the signature opens with
/// one, the signature of the joined object starts where the metadata ends:
/// the bytes judged later are the bytes that were signed, and the block
/// judged later is the signature that was made.
pub proof fn lemma_signed_tag_splits(content: Seq<u8>, signature: Seq<u8>)
    requires
        absent(content, armor_marker()),
        starts_with(signature, armor_marker()),
    ensures
        spec_signature_start(content + signature) == Some(content.len() as int),
        (content + signature).take(content.len() as int) == content,
        (content + signature).skip(content.len() as int) == signature,
{
    reveal_strlit("-----BEGIN");
    is_ascii_spec_bytes("-----BEGIN");
    let marker = armor_marker();
    let object = content + signature;
    let at = content.len() as int;
    assert(object.skip(at) =~= signature);
    assert forall|j: int| 0 <= j < at implies !occurs_at(object, marker, j) by {
        if occurs_at(object, marker, j) {
            let found = object.skip(j).subrange(0, 10);
            if j + 10 <= at {
                assert(content.skip(j).subrange(0, 10) =~= found);
                assert(occurs_at(content, marker, j));
            } else {
                let k = j + 9 - at;
                assert(found[9] == object[j + 9]);
                assert(signature.subrange(0, 10)[k] == marker[k]);
            }
        }
    }
    lemma_first_occurrence(object, marker, at);
}

/// Finds where the signature of a stored tag starts.
pub fn signature_start(raw: &[u8]) -> (r: Option<usize>)
    ensures
        match r {
            Some(i) => spec_signature_start(raw@) == Some(i as int) && i <= raw.len(),
            None => spec_signature_start(raw@) is None,
        },
{
    find(raw, "-----BEGIN".as_bytes())
}

/// Reports whether `bytes` are well-formed UTF-8, by `std::str::from_utf8`,
/// which accepts exactly the well-formed byte strings.
#[verifier::external_body]
pub(crate) fn is_utf8(bytes: &[u8]) -> (r: bool)
    ensures
        r == valid_utf8(bytes@),
{
    std::str::from_utf8(bytes).is_ok()
}

/// Name of the reference that holds the checkpoint.
pub open spec fn spec_reference_name() -> Seq<u8> {
    text("refs/tags/") + text(TAG_NAME)
}

/// Name of the reference that holds the checkpoint.
pub fn reference_name() -> (name: Vec<u8>)
    ensures
        name@ == spec_reference_name(),
{
    let mut name: Vec<u8> = Vec::new();
    append(&mut name, "refs/tags/".as_bytes());
    append(&mut name, TAG_NAME.as_bytes());
    name
}

/// The log message for moving the checkpoint to the commit `target`.
pub open spec fn spec_reference_log(target: Seq<u8>) -> Seq<u8> {
    text(BASE_MESSAGE) + text(" on ") + target
}

/// The log message for moving the checkpoint to the commit `target`.
pub fn reference_log(target: &[u8]) -> (message: Vec<u8>)
    ensures
        message@ == spec_reference_log(target@),
{
    let mut message: Vec<u8> = Vec::new();
    append(&mut message, BASE_MESSAGE.as_bytes());
    append(&mut message, " on ".as_bytes());
    append(&mut message, target);
    message
}

} // verus!

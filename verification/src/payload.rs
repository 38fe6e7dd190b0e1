//! Reconstruction of the bytes that a signature covers.
//!
//! A signed object stores its signature inside its own header, so the signed
//! bytes are the object without that one field: every other header line in
//! its place, one blank line, and the body, all taken byte for byte.

use vstd::prelude::*;
use vstd::string::*;
use crate::bytes::{append, has_prefix, starts_with, text};

verus! {

/// Line feed, the terminator of a header line.
pub const LF: u8 = 10;

/// Space, the first byte of a continuation line.
pub const SP: u8 = 32;

/// The header keyword that opens the embedded signature, with its separator.
pub open spec fn signature_keyword() -> Seq<u8> {
    text("gpgsig ")
}

/// Length of the first line of `s`, its terminator included.
/// The last line of `s` may lack a terminator.
pub open spec fn line_len(s: Seq<u8>) -> nat
    decreases s.len(),
{
    if s.len() == 0 {
        0
    } else if s[0] == LF {
        1
    } else {
        1 + line_len(s.drop_first())
    }
}

/// A non-empty text has a non-empty first line that lies within it.
pub proof fn lemma_line_len_bounds(s: Seq<u8>)
    ensures
        line_len(s) <= s.len(),
        s.len() > 0 ==> line_len(s) >= 1,
    decreases s.len(),
{
    if s.len() > 0 && s[0] != LF {
        lemma_line_len_bounds(s.drop_first());
    }
}

/// The first line holds no line feed before its last byte, and ends either
/// with a line feed or with the text.
pub proof fn lemma_line_len_shape(s: Seq<u8>)
    ensures
        forall|i: int| 0 <= i < line_len(s) - 1 ==> s[i] != LF,
        line_len(s) < s.len() ==> s[line_len(s) - 1] == LF,
        0 < line_len(s) && s[line_len(s) - 1] != LF ==> line_len(s) == s.len(),
    decreases s.len(),
{
    lemma_line_len_bounds(s);
    if s.len() > 0 && s[0] != LF {
        let t = s.drop_first();
        lemma_line_len_shape(t);
        lemma_line_len_bounds(t);
        assert forall|i: int| 0 <= i < line_len(s) - 1 implies s[i] != LF by {
            if i > 0 {
                assert(s[i] == t[i - 1]);
            }
        }
    }
}

/// A text whose first `n` bytes hold no line feed has the line feed of its
/// first line, if any, at or after `n`.
pub proof fn lemma_line_len_scan(s: Seq<u8>, n: int)
    requires
        0 <= n <= s.len(),
        forall|i: int| 0 <= i < n ==> s[i] != LF,
    ensures
        line_len(s) == n + line_len(s.skip(n)),
    decreases n,
{
    if n == 0 {
        assert(s.skip(0) =~= s);
    } else {
        let t = s.drop_first();
        assert forall|i: int| 0 <= i < n - 1 implies t[i] != LF by {
            assert(t[i] == s[i + 1]);
        }
        lemma_line_len_scan(t, n - 1);
        assert(t.skip(n - 1) =~= s.skip(n));
    }
}

/// The lines of `s` in order, each with its terminator.
pub open spec fn lines(s: Seq<u8>) -> Seq<Seq<u8>>
    decreases s.len(),
{
    if s.len() == 0 {
        Seq::empty()
    } else {
        proof {
            lemma_line_len_bounds(s);
        }
        seq![s.take(line_len(s) as int)] + lines(s.skip(line_len(s) as int))
    }
}

/// What is left of a header once the embedded signature is taken out.
///
/// A line that begins with the signature keyword opens the omitted block.
/// While in the block (`in_signature`), a line that begins with a space
/// continues it. Any other line closes the block and is kept unchanged.
pub open spec fn strip_signature(header_lines: Seq<Seq<u8>>, in_signature: bool) -> Seq<u8>
    decreases header_lines.len(),
{
    if header_lines.len() == 0 {
        Seq::empty()
    } else {
        let line = header_lines[0];
        let rest = header_lines.drop_first();
        if starts_with(line, signature_keyword()) {
            strip_signature(rest, true)
        } else if in_signature && line.len() > 0 && line[0] == SP {
            strip_signature(rest, true)
        } else {
            line + strip_signature(rest, false)
        }
    }
}

/// The bytes that the signature of an object covers: its header without the
/// embedded signature, one blank line, then its body.
pub open spec fn spec_signed_commit_data(raw_header: Seq<u8>, message: Seq<u8>) -> Seq<u8> {
    strip_signature(lines(raw_header), false) + seq![LF] + message
}

/// No byte of `s` is a line feed.
pub open spec fn single_line(s: Seq<u8>) -> bool {
    forall|i: int| 0 <= i < s.len() ==> s[i] != LF
}

/// Some line of `header_lines` opens an embedded signature.
pub open spec fn has_signature_line(header_lines: Seq<Seq<u8>>) -> bool {
    exists|i: int|
        0 <= i < header_lines.len() && starts_with(#[trigger] header_lines[i], signature_keyword())
}

/// Whether the lines after `header_lines` continue an embedded signature,
/// given whether `header_lines` themselves began inside one.
pub open spec fn in_signature_after(header_lines: Seq<Seq<u8>>, in_signature: bool) -> bool
    decreases header_lines.len(),
{
    if header_lines.len() == 0 {
        in_signature
    } else {
        let line = header_lines[0];
        in_signature_after(
            header_lines.drop_first(),
            starts_with(line, signature_keyword()) || (in_signature && line.len() > 0 && line[0]
                == SP),
        )
    }
}

/// The embedded form of a signature: each line feed inside it is followed
/// by a space, which marks the next line as a continuation.
pub open spec fn folded(signature: Seq<u8>) -> Seq<u8>
    decreases signature.len(),
{
    if signature.len() == 0 {
        Seq::empty()
    } else if signature[0] == LF {
        seq![LF, SP] + folded(signature.drop_first())
    } else {
        seq![signature[0]] + folded(signature.drop_first())
    }
}

/// The header field that embeds `signature`: the keyword, the folded
/// signature, and the line feed that ends the field.
pub open spec fn signature_field(signature: Seq<u8>) -> Seq<u8> {
    signature_keyword() + folded(signature) + seq![LF]
}

/// A line and what follows it split where the line ends.
pub proof fn lemma_lines_cons(line: Seq<u8>, rest: Seq<u8>)
    requires
        single_line(line),
    ensures
        lines(line + seq![LF] + rest) == seq![line + seq![LF]] + lines(rest),
{
    let s = line + seq![LF] + rest;
    let n = line.len() as int;
    lemma_line_len_scan(s, n);
    assert(s.take(n + 1) =~= line + seq![LF]);
    assert(s.skip(n + 1) =~= rest);
}

/// The lines of a text that ends with a line feed, followed by the lines
/// of another text, are the lines of the two texts joined.
pub proof fn lemma_lines_concat(a: Seq<u8>, b: Seq<u8>)
    requires
        a.len() == 0 || a.last() == LF,
    ensures
        lines(a + b) == lines(a) + lines(b),
    decreases a.len(),
{
    if a.len() > 0 {
        let n = line_len(a) as int;
        lemma_line_len_bounds(a);
        lemma_line_len_shape(a);
        let line = a.take(n - 1);
        let rest = a.skip(n);
        assert(a =~= line + seq![LF] + rest);
        assert(a + b =~= line + seq![LF] + (rest + b));
        lemma_lines_cons(line, rest + b);
        lemma_lines_cons(line, rest);
        lemma_lines_concat(rest, b);
    }
}

/// Taking the signature out of two runs of lines, one after the other.
pub proof fn lemma_strip_concat(a: Seq<Seq<u8>>, b: Seq<Seq<u8>>, in_signature: bool)
    ensures
        strip_signature(a + b, in_signature) == strip_signature(a, in_signature) + strip_signature(
            b,
            in_signature_after(a, in_signature),
        ),
        in_signature_after(a + b, in_signature) == in_signature_after(
            b,
            in_signature_after(a, in_signature),
        ),
    decreases a.len(),
{
    if a.len() > 0 {
        let line = a[0];
        let next = starts_with(line, signature_keyword()) || (in_signature && line.len() > 0
            && line[0] == SP);
        assert((a + b).drop_first() =~= a.drop_first() + b);
        lemma_strip_concat(a.drop_first(), b, next);
    }
}

/// A header without an embedded signature is kept whole.
pub proof fn lemma_strip_unsigned(header_lines: Seq<Seq<u8>>)
    requires
        !has_signature_line(header_lines),
    ensures
        strip_signature(header_lines, false) == header_lines.flatten(),
        !in_signature_after(header_lines, false),
    decreases header_lines.len(),
{
    if header_lines.len() > 0 {
        let rest = header_lines.drop_first();
        assert forall|i: int| 0 <= i < rest.len() implies !starts_with(
            #[trigger] rest[i],
            signature_keyword(),
        ) by {
            assert(rest[i] == header_lines[i + 1]);
        }
        lemma_strip_unsigned(rest);
    }
}

/// The lines of a text, joined again, are the text.
pub proof fn lemma_lines_flatten(s: Seq<u8>)
    ensures
        lines(s).flatten() == s,
    decreases s.len(),
{
    if s.len() > 0 {
        let n = line_len(s) as int;
        lemma_line_len_bounds(s);
        lemma_lines_flatten(s.skip(n));
        assert(lines(s).drop_first() =~= lines(s.skip(n)));
    }
}

/// The signed bytes of an object without an embedded signature are its
/// header, one blank line and its body.
pub proof fn lemma_unsigned_object_is_kept(raw_header: Seq<u8>, message: Seq<u8>)
    requires
        !has_signature_line(lines(raw_header)),
    ensures
        spec_signed_commit_data(raw_header, message) == raw_header + seq![LF] + message,
{
    lemma_strip_unsigned(lines(raw_header));
    lemma_lines_flatten(raw_header);
}

/// The keyword is seven bytes on one line, none of them a space at the
/// start.
pub proof fn lemma_signature_keyword()
    ensures
        signature_keyword().len() == 7,
        single_line(signature_keyword()),
        signature_keyword()[0] != SP,
{
    reveal_strlit("gpgsig ");
    is_ascii_spec_bytes("gpgsig ");
}

/// The lines of an embedded signature are all left out, and the line after
/// them is still judged as following a signature. `prefix` is how the
/// current line began: with the keyword, or as a continuation.
proof fn lemma_field_is_omitted(prefix: Seq<u8>, signature: Seq<u8>, in_signature: bool)
    requires
        single_line(prefix),
        starts_with(prefix, signature_keyword()) || (in_signature && prefix.len() > 0 && prefix[0]
            == SP),
    ensures
        strip_signature(lines(prefix + folded(signature) + seq![LF]), in_signature)
            == Seq::<u8>::empty(),
        in_signature_after(lines(prefix + folded(signature) + seq![LF]), in_signature),
    decreases signature.len(),
{
    let text = prefix + folded(signature) + seq![LF];
    let line = prefix + seq![LF];
    if starts_with(prefix, signature_keyword()) {
        assert(line.subrange(0, signature_keyword().len() as int) =~= prefix.subrange(
            0,
            signature_keyword().len() as int,
        ));
    }
    if signature.len() == 0 {
        lemma_lines_cons(prefix, Seq::empty());
        assert(strip_signature(lines(text).drop_first(), true) == Seq::<u8>::empty());
        assert(in_signature_after(lines(text).drop_first(), true));
    } else if signature[0] == LF {
        let next = seq![SP] + folded(signature.drop_first()) + seq![LF];
        assert(text =~= prefix + seq![LF] + next);
        lemma_lines_cons(prefix, next);
        assert(lines(text).drop_first() =~= lines(next));
        lemma_field_is_omitted(seq![SP], signature.drop_first(), true);
    } else {
        let longer = prefix + seq![signature[0]];
        assert(text =~= longer + folded(signature.drop_first()) + seq![LF]);
        if starts_with(prefix, signature_keyword()) {
            assert(longer.subrange(0, signature_keyword().len() as int) =~= prefix.subrange(
                0,
                signature_keyword().len() as int,
            ));
        }
        lemma_field_is_omitted(longer, signature.drop_first(), in_signature);
    }
}

/// Lines that do not begin with a space are judged alike inside and
/// outside a signature.
proof fn lemma_strip_after_signature(rest: Seq<u8>)
    requires
        rest.len() == 0 || rest[0] != SP,
    ensures
        strip_signature(lines(rest), true) == strip_signature(lines(rest), false),
{
    if rest.len() > 0 {
        lemma_line_len_bounds(rest);
    }
}

/// Embedding a signature and taking it out again gives back what was
/// signed.
///
/// An object is signed before it holds its signature: the signed bytes are
/// its header `before + after`, one blank line and its body. The signature
/// is then embedded as one header field between `before` and `after`. The
/// signed bytes rebuilt from the stored header are the bytes that were
/// signed.
pub proof fn lemma_signature_field_is_removed(
    before: Seq<u8>,
    signature: Seq<u8>,
    after: Seq<u8>,
    message: Seq<u8>,
)
    requires
        before.len() == 0 || before.last() == LF,
        after.len() == 0 || after[0] != SP,
        !has_signature_line(lines(before)),
        !has_signature_line(lines(after)),
    ensures
        spec_signed_commit_data(before + signature_field(signature) + after, message) == before
            + after + seq![LF] + message,
{
    let field = signature_field(signature);
    lemma_signature_keyword();
    assert(signature_keyword().subrange(0, signature_keyword().len() as int)
        =~= signature_keyword());
    lemma_field_is_omitted(signature_keyword(), signature, false);
    assert(before + field + after =~= before + (field + after));
    lemma_lines_concat(before, field + after);
    lemma_lines_concat(field, after);
    lemma_strip_concat(lines(before), lines(field) + lines(after), false);
    lemma_strip_concat(lines(field), lines(after), false);
    lemma_strip_unsigned(lines(before));
    lemma_strip_unsigned(lines(after));
    lemma_strip_after_signature(after);
    lemma_lines_flatten(before);
    lemma_lines_flatten(after);
}

/// Finds the end of the line that starts at `from`: the index after its
/// terminator, or the length of `s` where the line has none.
pub fn line_end(s: &[u8], from: usize) -> (end: usize)
    requires
        from <= s.len(),
    ensures
        end == from + line_len(s@.skip(from as int)),
        from <= end <= s.len(),
        from < s.len() ==> from < end,
{
    let mut i: usize = from;
    while i < s.len() && s[i] != LF
        invariant
            from <= i <= s.len(),
            forall|k: int| from <= k < i ==> s@[k] != LF,
        decreases s.len() - i,
    {
        i += 1;
    }
    proof {
        let t = s@.skip(from as int);
        lemma_line_len_scan(t, i - from);
        lemma_line_len_bounds(s@.skip(i as int));
    }
    if i < s.len() {
        i + 1
    } else {
        i
    }
}

/// Rebuilds the signed bytes of an object from its raw header and raw body.
///
/// Works on bytes throughout: neither input has to be text in any encoding.
pub fn signed_commit_data(raw_header: &[u8], message: &[u8]) -> (payload: Vec<u8>)
    ensures
        payload@ == spec_signed_commit_data(raw_header@, message@),
{
    let keyword = "gpgsig ".as_bytes();
    let mut payload: Vec<u8> = Vec::new();
    let mut pos: usize = 0;
    let mut in_signature = false;
    assert(raw_header@.skip(0) =~= raw_header@);
    while pos < raw_header.len()
        invariant
            pos <= raw_header.len(),
            keyword@ == signature_keyword(),
            strip_signature(lines(raw_header@), false) == payload@ + strip_signature(
                lines(raw_header@.skip(pos as int)),
                in_signature,
            ),
        decreases raw_header.len() - pos,
    {
        let end: usize = line_end(raw_header, pos);
        let line = &raw_header[pos..end];
        proof {
            let rest = raw_header@.skip(pos as int);
            assert(rest.take(end - pos) =~= line@);
            assert(rest.skip(end - pos) =~= raw_header@.skip(end as int));
            assert(lines(rest).drop_first() =~= lines(raw_header@.skip(end as int)));
        }
        if has_prefix(line, keyword) {
            in_signature = true;
        } else if !(in_signature && line[0] == SP) {
            in_signature = false;
            append(&mut payload, line);
        }
        pos = end;
    }
    payload.push(LF);
    append(&mut payload, message);
    payload
}

} // verus!

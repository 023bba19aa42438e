//! The renderer: strips markup from a body and decodes a small set of
//! character entities, or emits a line-numbered source dump. `spec_render`
//! and `spec_render_source` say character by character what comes out.

use vstd::prelude::*;

use crate::text::{find_char, find_char_from, lemma_find_char, spec_digits, format_u64};

verus! {

/// Why an entity could not be decoded: the string ended before a `;`, or
/// the name between `&` and the `;` (whose position is carried) is not in
/// the entity table.
#[derive(Clone, Copy, Debug, PartialEq, Eq, Structural)]
pub enum EntityReadError {
    Eof,
    Unsupported(usize),
}

/// Examine text starting at a `&`. On a known entity name before the next
/// `;`, yield the decoded text and the offset of the character before the
/// `;`; on an unknown name, the offset of the `;` itself; with no `;` at
/// all, `Eof`.
pub fn read_entity(body: &str) -> (r: Result<(usize, &'static str), EntityReadError>)
    requires
        body@.len() > 0,
        body@[0] == '&',
    ensures
        ({
            let f = find_char(body@, ';');
            match r {
                Ok((j, ent)) => {
                    &&& f == Some(j + 1int)
                    &&& j + 1 < body@.len()
                    &&& (body@.subrange(1, j + 1int) == seq!['l', 't'] && ent@ == seq!['<'])
                        || (body@.subrange(1, j + 1int) == seq!['g', 't'] && ent@ == seq!['>'])
                },
                Err(EntityReadError::Unsupported(j)) => {
                    &&& f == Some(j as int)
                    &&& 1 <= j < body@.len()
                    &&& body@.subrange(1, j as int) != seq!['l', 't']
                    &&& body@.subrange(1, j as int) != seq!['g', 't']
                },
                Err(EntityReadError::Eof) => f is None,
            }
        }),
{
    proof {
        assert(body@.skip(0) =~= body@);
        lemma_find_char(body@, ';');
    }
    match find_char_from(body, 0, ';') {
        None => Err(EntityReadError::Eof),
        Some(k) => {
            proof {
                assert(body@[k as int] == ';');
                assert(k >= 1);
            }
            if k == 3 && body.get_char(1) == 'l' && body.get_char(2) == 't' {
                proof {
                    assert(body@.subrange(1, 3) =~= seq!['l', 't']);
                    reveal_strlit("<");
                    assert("<"@ =~= seq!['<']);
                }
                Ok((k - 1, "<"))
            } else if k == 3 && body.get_char(1) == 'g' && body.get_char(2) == 't' {
                proof {
                    assert(body@.subrange(1, 3) =~= seq!['g', 't']);
                    reveal_strlit(">");
                    assert(">"@ =~= seq!['>']);
                }
                Ok((k - 1, ">"))
            } else {
                proof {
                    let name = body@.subrange(1, k as int);
                    if name == seq!['l', 't'] {
                        assert(name.len() == 2);
                        assert(name[0] == body@[1]);
                        assert(name[1] == body@[2]);
                    }
                    if name == seq!['g', 't'] {
                        assert(name.len() == 2);
                        assert(name[0] == body@[1]);
                        assert(name[1] == body@[2]);
                    }
                }
                Err(EntityReadError::Unsupported(k))
            }
        },
    }
}

/// What rendering emits for a body, scanned left to right with the given
/// "inside a tag" flag. `<` and `>` toggle the flag and are never emitted;
/// other characters are emitted only outside a tag. A `&` is examined for
/// an entity whatever the flag says: a known name emits its decoded
/// character, an unknown one emits the literal `&...;` text, and a `&`
/// with no later `;` emits the rest of the body verbatim and ends the scan.
pub open spec fn spec_render(s: Seq<char>, in_tag: bool) -> Seq<char>
    decreases s.len(),
    via spec_render_dec
{
    if s.len() == 0 {
        Seq::empty()
    } else if s[0] == '<' {
        spec_render(s.drop_first(), true)
    } else if s[0] == '>' {
        spec_render(s.drop_first(), false)
    } else if s[0] == '&' {
        match find_char(s, ';') {
            None => s,
            Some(i) => {
                let name = s.subrange(1, i);
                let rest = s.skip(i + 1);
                if name == seq!['l', 't'] {
                    seq!['<'] + spec_render(rest, in_tag)
                } else if name == seq!['g', 't'] {
                    seq!['>'] + spec_render(rest, in_tag)
                } else {
                    s.take(i + 1) + spec_render(rest, in_tag)
                }
            },
        }
    } else if !in_tag {
        seq![s[0]] + spec_render(s.drop_first(), in_tag)
    } else {
        spec_render(s.drop_first(), in_tag)
    }
}

#[via_fn]
proof fn spec_render_dec(s: Seq<char>, in_tag: bool) {
    if s.len() > 0 && s[0] == '&' {
        lemma_find_char(s, ';');
    }
}

/// Strip markup and decode entities over a whole body, starting outside
/// any tag.
pub fn render(body: &str) -> (out: String)
    ensures
        out@ == spec_render(body@, false),
{
    let n = body.unicode_len();
    let mut out = String::new();
    let mut i: usize = 0;
    let mut in_tag = false;
    proof {
        assert(body@.skip(0) =~= body@);
        assert(out@ + spec_render(body@, false) =~= spec_render(body@, false));
    }
    while i < n
        invariant
            0 <= i <= n,
            n == body@.len(),
            out@ + spec_render(body@.skip(i as int), in_tag) == spec_render(body@, false),
        decreases n - i,
    {
        let ghost rem = body@.skip(i as int);
        let c = body.get_char(i);
        proof {
            assert(rem[0] == body@[i as int]);
            assert(rem.drop_first() =~= body@.skip(i + 1));
        }
        if c == '<' {
            in_tag = true;
            i += 1;
        } else if c == '>' {
            in_tag = false;
            i += 1;
        } else if c == '&' {
            let tail = body.substring_char(i, n);
            proof {
                assert(tail@ =~= rem);
            }
            match read_entity(tail) {
                Ok((j, ent)) => {
                    let ghost out0 = out@;
                    out.append(ent);
                    proof {
                        lemma_find_char(rem, ';');
                        assert(j + 2 <= rem.len());
                        assert(rem.skip(j + 2) =~= body@.skip(i + j + 2));
                        assert(spec_render(rem, in_tag) == ent@ + spec_render(
                            body@.skip(i + j + 2),
                            in_tag,
                        ));
                        assert((out0 + ent@) + spec_render(body@.skip(i + j + 2), in_tag) =~= out0
                            + (ent@ + spec_render(body@.skip(i + j + 2), in_tag)));
                    }
                    i += j + 2;
                },
                Err(EntityReadError::Eof) => {
                    let ghost out0 = out@;
                    out.append(tail);
                    proof {
                        assert(spec_render(rem, in_tag) == rem);
                        assert(body@.skip(n as int) =~= Seq::<char>::empty());
                        assert((out0 + rem) + spec_render(body@.skip(n as int), in_tag) =~= out0
                            + rem);
                    }
                    i = n;
                },
                Err(EntityReadError::Unsupported(j)) => {
                    let piece = body.substring_char(i, i + j + 1);
                    let ghost out0 = out@;
                    out.append(piece);
                    proof {
                        assert(piece@ =~= rem.take(j + 1int));
                        assert(rem.skip(j + 1) =~= body@.skip(i + j + 1));
                        assert(spec_render(rem, in_tag) == rem.take(j + 1int) + spec_render(
                            body@.skip(i + j + 1),
                            in_tag,
                        ));
                        assert((out0 + piece@) + spec_render(body@.skip(i + j + 1), in_tag) =~= out0
                            + (piece@ + spec_render(body@.skip(i + j + 1), in_tag)));
                    }
                    i += j + 1;
                },
            }
        } else {
            if !in_tag {
                let ghost out0 = out@;
                out.push(c);
                proof {
                    assert(spec_render(rem, in_tag) == seq![rem[0]] + spec_render(
                        body@.skip(i + 1),
                        in_tag,
                    ));
                    assert(out@ =~= out0 + seq![rem[0]]);
                    assert((out0 + seq![rem[0]]) + spec_render(body@.skip(i + 1), in_tag) =~= out0
                        + (seq![rem[0]] + spec_render(body@.skip(i + 1), in_tag)));
                }
            } else {
                proof {
                    assert(spec_render(rem, in_tag) == spec_render(body@.skip(i + 1), in_tag));
                }
            }
            i += 1;
        }
    }
    proof {
        assert(body@.skip(n as int) =~= Seq::<char>::empty());
    }
    out
}

/// One trailing carriage return stripped: the remains of a `\r\n` ending.
pub open spec fn chomp_cr(t: Seq<char>) -> Seq<char> {
    if t.len() > 0 && t.last() == '\r' {
        t.drop_last()
    } else {
        t
    }
}

/// The lines of a body: split at each `\n`, a `\r` before the `\n`
/// dropped, the final line ending optional, and no empty final line after
/// a trailing `\n`.
pub open spec fn spec_lines(s: Seq<char>) -> Seq<Seq<char>>
    decreases s.len(),
    via spec_lines_dec
{
    if s.len() == 0 {
        Seq::empty()
    } else {
        match find_char(s, '\n') {
            None => seq![s],
            Some(i) => seq![chomp_cr(s.take(i))] + spec_lines(s.skip(i + 1)),
        }
    }
}

#[via_fn]
proof fn spec_lines_dec(s: Seq<char>) {
    if s.len() > 0 {
        lemma_find_char(s, '\n');
    }
}

/// `n` spaces.
pub open spec fn spaces(n: nat) -> Seq<char>
    decreases n,
{
    if n == 0 {
        Seq::empty()
    } else {
        spaces((n - 1) as nat).push(' ')
    }
}

/// A line number, right-aligned to width six with spaces.
pub open spec fn line_label(n: nat) -> Seq<char> {
    let d = spec_digits(n);
    if d.len() >= 6 {
        d
    } else {
        spaces((6 - d.len()) as nat) + d
    }
}

/// What the source dump emits for the given lines, numbering from `start`:
/// each line prefixed with its right-aligned number and a space, and
/// terminated by a newline.
pub open spec fn spec_numbered(ls: Seq<Seq<char>>, start: nat) -> Seq<char>
    decreases ls.len(),
{
    if ls.len() == 0 {
        Seq::empty()
    } else {
        line_label(start) + seq![' '] + ls[0] + seq!['\n'] + spec_numbered(
            ls.drop_first(),
            start + 1,
        )
    }
}

/// The line-numbered dump of a whole body, numbering from one.
pub open spec fn spec_render_source(s: Seq<char>) -> Seq<char> {
    spec_numbered(spec_lines(s), 1)
}

/// A line number as it appears in the dump.
fn line_label_exec(n: usize) -> (r: String)
    ensures
        r@ == line_label(n as nat),
{
    let d = format_u64(n as u64);
    let dn = d.as_str().unicode_len();
    if dn >= 6 {
        d
    } else {
        let width: usize = 6 - dn;
        let mut out = String::new();
        let mut k: usize = 0;
        while k < width
            invariant
                0 <= k <= width,
                out@ == spaces(k as nat),
            decreases width - k,
        {
            out.push(' ');
            k += 1;
        }
        out.append(d.as_str());
        out
    }
}

/// Emit every line of the body behind a right-aligned line number starting
/// at one, with no markup stripping and no entity decoding.
pub fn render_source(body: &str) -> (out: String)
    ensures
        out@ == spec_render_source(body@),
{
    let n = body.unicode_len();
    let mut out = String::new();
    let mut i: usize = 0;
    let mut num: usize = 1;
    proof {
        assert(body@.skip(0) =~= body@);
        assert(out@ + spec_numbered(spec_lines(body@), 1) =~= spec_numbered(spec_lines(body@), 1));
    }
    while i < n
        invariant
            0 <= i <= n,
            n == body@.len(),
            1 <= num <= i + 1,
            out@ + spec_numbered(spec_lines(body@.skip(i as int)), num as nat)
                == spec_render_source(body@),
        decreases n - i,
    {
        let ghost rem = body@.skip(i as int);
        let ghost out0 = out@;
        let label = line_label_exec(num);
        out.append(label.as_str());
        out.push(' ');
        match find_char_from(body, i, '\n') {
            Some(k) => {
                proof {
                    lemma_find_char(rem, '\n');
                }
                let end = if k > i && body.get_char(k - 1) == '\r' {
                    k - 1
                } else {
                    k
                };
                let line = body.substring_char(i, end);
                out.append(line);
                out.push('\n');
                proof {
                    assert(line@ =~= body@.subrange(i as int, end as int));
                    assert(rem.take(k - i) =~= body@.subrange(i as int, k as int));
                    if k > i && body@[k - 1] == '\r' {
                        assert(rem.take(k - i).drop_last() =~= body@.subrange(i as int, k - 1));
                    }
                    assert(line@ == chomp_cr(rem.take(k - i)));
                    assert(rem.skip(k - i + 1) =~= body@.skip(k + 1));
                    let ls = spec_lines(rem);
                    assert(ls == seq![line@] + spec_lines(body@.skip(k + 1)));
                    assert(ls[0] == line@);
                    assert(ls.drop_first() =~= spec_lines(body@.skip(k + 1)));
                    assert(spec_numbered(ls, num as nat) == line_label(num as nat) + seq![' ']
                        + line@ + seq!['\n'] + spec_numbered(
                        spec_lines(body@.skip(k + 1)),
                        num as nat + 1,
                    ));
                    assert(out@ =~= out0 + line_label(num as nat) + seq![' '] + line@ + seq!['\n']);
                    assert(out@ + spec_numbered(spec_lines(body@.skip(k + 1)), num as nat + 1)
                        =~= out0 + spec_numbered(spec_lines(rem), num as nat));
                }
                i = k + 1;
                if i < n {
                    num += 1;
                } else {
                    proof {
                        assert(body@.skip(i as int) =~= Seq::<char>::empty());
                        assert(spec_lines(body@.skip(i as int)) =~= Seq::<Seq<char>>::empty());
                    }
                }
            },
            None => {
                let line = body.substring_char(i, n);
                out.append(line);
                out.push('\n');
                proof {
                    assert(line@ =~= rem);
                    let ls = spec_lines(rem);
                    assert(ls == seq![rem]);
                    assert(ls[0] == rem);
                    assert(ls.drop_first() =~= Seq::<Seq<char>>::empty());
                    assert(spec_numbered(ls, num as nat) == line_label(num as nat) + seq![' ']
                        + rem + seq!['\n'] + spec_numbered(Seq::empty(), num as nat + 1));
                    assert(out@ =~= out0 + line_label(num as nat) + seq![' '] + rem + seq!['\n']);
                    assert(body@.skip(n as int) =~= Seq::<char>::empty());
                    assert(spec_lines(body@.skip(n as int)) =~= Seq::<Seq<char>>::empty());
                    assert(out@ + spec_numbered(spec_lines(body@.skip(n as int)), num as nat)
                        =~= out0 + spec_numbered(spec_lines(rem), num as nat));
                }
                i = n;
            },
        }
    }
    proof {
        assert(body@.skip(i as int) =~= Seq::<char>::empty());
    }
    out
}

/// What the whole rendering step emits: a literal line-numbered dump when
/// the load's starting locator asked for source, the markup-stripped text
/// otherwise.
pub open spec fn spec_output(body: Seq<char>, view_source: bool) -> Seq<char> {
    if view_source {
        spec_render_source(body)
    } else {
        spec_render(body, false)
    }
}

/// Render a final body, choosing the mode from the view-source flag that
/// the load's starting locator carried before any redirect was followed.
pub fn render_output(body: &str, view_source: bool) -> (out: String)
    ensures
        out@ == spec_output(body@, view_source),
{
    if view_source {
        render_source(body)
    } else {
        render(body)
    }
}

} // verus!

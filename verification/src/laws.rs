//! Document-level laws of the SVG backend.
//!
//! The renderer's operations state, fragment by fragment, exactly what they
//! append.  The laws here lift that to whole documents: a render produces
//! exactly one root `<svg>` element and one `<defs>` block and ends by
//! closing the top-level group and the root, and a color scope appends one
//! opening fill-group matched by exactly one closing tag around its unit of
//! work.  Occurrences are counted literally, as character substrings.

use vstd::prelude::*;
use crate::num::{Px, px_plain, px_two, px_one, dec_str, px_abs, px_sign, digit_char};
use crate::svg::{Cursor, svg_header, svg_footer, symbol_frag, rule_frag, bbox_frag, color_open, color_close};

verus! {

/// How often `pat` occurs in `s` as a contiguous substring (occurrences may
/// overlap; the empty pattern never counts).
pub open spec fn count_occ(s: Seq<char>, pat: Seq<char>) -> nat
    decreases s.len(),
{
    if pat.len() == 0 || s.len() < pat.len() {
        0
    } else {
        (if s.subrange(0, pat.len() as int) == pat {
            1nat
        } else {
            0nat
        }) + count_occ(s.drop_first(), pat)
    }
}

/// No character of `pat` may stand at position `k` in an occurrence that
/// ends a left part with `x` and begins a right part with `y`.
pub open spec fn pair_free(x: char, y: char, pat: Seq<char>) -> bool {
    forall|k: int| 0 <= k < pat.len() - 1 ==> !(#[trigger] pat[k] == x && pat[k + 1] == y)
}

/// Occurrence counts add over a concatenation whose boundary no occurrence
/// can cross: an occurrence crossing it would contain the last character of
/// `a` immediately followed by the first character of `b`.
pub proof fn lemma_count_join(a: Seq<char>, b: Seq<char>, pat: Seq<char>)
    requires
        pat.len() >= 1,
        a.len() > 0 && b.len() > 0 ==> pair_free(a.last(), b.first(), pat),
    ensures
        count_occ(a + b, pat) == count_occ(a, pat) + count_occ(b, pat),
    decreases a.len(),
{
    let m = pat.len() as int;
    if a.len() == 0 {
        assert(a + b =~= b);
    } else {
        let s = a + b;
        assert(s.drop_first() =~= a.drop_first() + b);
        if a.len() > 1 {
            assert(a.drop_first().last() == a.last());
        }
        lemma_count_join(a.drop_first(), b, pat);
        if s.len() < m {
        } else {
            if a.len() >= m {
                assert(s.subrange(0, m) =~= a.subrange(0, m));
            } else {
                if s.subrange(0, m) == pat {
                    assert(b.len() > 0);
                    assert(pat[a.len() - 1] == s[a.len() - 1]);
                    assert(s[a.len() - 1] == a.last());
                    assert(pat[a.len() as int] == s[a.len() as int]);
                    assert(s[a.len() as int] == b.first());
                    assert(!(pat[a.len() - 1] == a.last() && pat[a.len() as int] == b.first()));
                    assert(false);
                }
            }
        }
    }
}

/// A decimal-rendering character: a digit, the decimal point, or a sign.
pub open spec fn is_num_char(c: char) -> bool {
    c == '0' || c == '1' || c == '2' || c == '3' || c == '4' || c == '5' || c == '6' || c == '7'
        || c == '8' || c == '9' || c == '.' || c == '-'
}

/// Every character of `s` is a decimal-rendering character.
pub open spec fn num_text(s: Seq<char>) -> bool {
    forall|i: int| 0 <= i < s.len() ==> is_num_char(#[trigger] s[i])
}

/// An opening angle bracket may stand only at the very start of `s`.
pub open spec fn lt_only_at_zero(s: Seq<char>) -> bool {
    forall|i: int| 1 <= i < s.len() ==> #[trigger] s[i] != '<'
}

/// A pattern that contains a character absent from `s` cannot occur in `s`.
pub proof fn lemma_count_zero_missing(s: Seq<char>, pat: Seq<char>, c: char)
    requires
        pat.contains(c),
        !s.contains(c),
    ensures
        count_occ(s, pat) == 0,
    decreases s.len(),
{
    if pat.len() == 0 || s.len() < pat.len() {
    } else {
        if s.subrange(0, pat.len() as int) == pat {
            let k = choose|k: int| 0 <= k < pat.len() && pat[k] == c;
            assert(s.subrange(0, pat.len() as int)[k] == c);
            assert(s[k] == c);
            assert(false);
        }
        assert(!s.drop_first().contains(c)) by {
            if s.drop_first().contains(c) {
                let i = choose|i: int|
                    0 <= i < s.drop_first().len() && s.drop_first()[i] == c;
                assert(s[i + 1] == c);
            }
        }
        lemma_count_zero_missing(s.drop_first(), pat, c);
    }
}

/// In a piece whose only possible `<` is its first character, a pattern that
/// begins with `<` occurs exactly where that first character matches.
pub proof fn lemma_count_piece(s: Seq<char>, pat: Seq<char>)
    requires
        pat.len() >= 1,
        pat[0] == '<',
        lt_only_at_zero(s),
    ensures
        count_occ(s, pat) == if s.len() >= pat.len() && s.subrange(0, pat.len() as int) == pat {
            1nat
        } else {
            0nat
        },
{
    if s.len() < pat.len() {
    } else {
        assert(pat.contains('<'));
        assert(!s.drop_first().contains('<')) by {
            if s.drop_first().contains('<') {
                let i = choose|i: int|
                    0 <= i < s.drop_first().len() && s.drop_first()[i] == '<';
                assert(s[i + 1] == '<');
            }
        }
        lemma_count_zero_missing(s.drop_first(), pat, '<');
    }
}

/// Number strings hold decimal-rendering characters and nothing else.
pub proof fn lemma_num_no_char(s: Seq<char>, c: char)
    requires
        num_text(s),
        !is_num_char(c),
    ensures
        !s.contains(c),
{
    if s.contains(c) {
        let i = choose|i: int| 0 <= i < s.len() && s[i] == c;
        assert(is_num_char(s[i]));
    }
}

/// Number strings never hold markup.
pub proof fn lemma_num_no_lt(s: Seq<char>)
    requires
        num_text(s),
    ensures
        !s.contains('<'),
{
    lemma_num_no_char(s, '<');
}

/// Extending a piece by markup-free text keeps `<` confined to its start.
pub proof fn lemma_lt_chunk(a: Seq<char>, b: Seq<char>)
    requires
        lt_only_at_zero(a),
        !b.contains('<'),
    ensures
        lt_only_at_zero(a + b),
{
    assert forall|i: int| 1 <= i < (a + b).len() implies #[trigger] (a + b)[i] != '<' by {
        if i >= a.len() {
            assert(b[i - a.len()] != '<') by {
                if b[i - a.len()] == '<' {
                    assert(b.contains('<'));
                }
            }
        }
    }
}

/// `dec_str` renders with decimal-rendering characters only.
pub proof fn lemma_dec_str_num(n: nat)
    ensures
        num_text(dec_str(n)),
        dec_str(n).len() >= 1,
    decreases n,
{
    if n < 10 {
        assert(is_num_char(digit_char(n)));
    } else {
        lemma_dec_str_num(n / 10);
        assert(is_num_char(digit_char(n % 10)));
        assert forall|i: int| 0 <= i < dec_str(n).len() implies is_num_char(
            #[trigger] dec_str(n)[i],
        ) by {
            if i < dec_str(n / 10).len() {
                assert(dec_str(n)[i] == dec_str(n / 10)[i]);
            }
        }
    }
}

/// All three fixed-point renderings hold decimal-rendering characters only.
pub proof fn lemma_px_num(p: Px)
    ensures
        num_text(px_plain(p)),
        num_text(px_two(p)),
        num_text(px_one(p)),
        px_plain(p).len() >= 1,
        px_two(p).len() >= 1,
        px_one(p).len() >= 1,
{
    let n = px_abs(p);
    lemma_dec_str_num(n / 100);
    assert(num_text(px_sign(p)));
    assert(is_num_char(digit_char((n / 10) % 10)));
    assert(is_num_char(digit_char(n % 10)));
    assert(is_num_char('.'));
    assert(num_text(px_plain(p)));
    assert(num_text(px_two(p)));
    assert(num_text(px_one(p)));
}

/// The tags whose uniqueness makes the document a single well-rooted SVG:
/// the root element's opening and closing tag, and the single `<defs>` block.
pub open spec fn structural_pat(pat: Seq<char>) -> bool {
    pat == "<svg"@ || pat == "</svg>"@ || pat == "<defs"@
}

proof fn lemma_structural_pat_facts(pat: Seq<char>)
    requires
        structural_pat(pat),
    ensures
        4 <= pat.len() <= 6,
        pat[0] == '<',
        pat[1] == 's' || pat[1] == '/' || pat[1] == 'd',
        pat == "<svg"@ ==> pat.len() == 4 && pat[1] == 's' && pat[2] == 'v' && pat[3] == 'g',
        pat == "</svg>"@ ==> pat.len() == 6 && pat[1] == '/' && pat[2] == 's' && pat[3] == 'v',
        pat == "<defs"@ ==> pat.len() == 5 && pat[1] == 'd' && pat[2] == 'e',
        lt_only_at_zero(pat),
        pat.contains('<'),
        !pat.contains('\n'),
        !pat.contains(' '),
{
    reveal_strlit("<svg");
    reveal_strlit("</svg>");
    reveal_strlit("<defs");
    if pat == "<svg"@ {
        assert(forall|i: int| 1 <= i < pat.len() ==> #[trigger] pat[i] != '<');
        assert(forall|i: int| 0 <= i < pat.len() ==> #[trigger] pat[i] != '\n');
        assert(forall|i: int| 0 <= i < pat.len() ==> #[trigger] pat[i] != ' ');
    } else if pat == "</svg>"@ {
        assert(forall|i: int| 1 <= i < pat.len() ==> #[trigger] pat[i] != '<');
        assert(forall|i: int| 0 <= i < pat.len() ==> #[trigger] pat[i] != '\n');
        assert(forall|i: int| 0 <= i < pat.len() ==> #[trigger] pat[i] != ' ');
    } else {
        assert(forall|i: int| 1 <= i < pat.len() ==> #[trigger] pat[i] != '<');
        assert(forall|i: int| 0 <= i < pat.len() ==> #[trigger] pat[i] != '\n');
        assert(forall|i: int| 0 <= i < pat.len() ==> #[trigger] pat[i] != ' ');
    }
}

proof fn lemma_pair_free_left(x: char, y: char, pat: Seq<char>)
    requires
        !pat.contains(x),
    ensures
        pair_free(x, y, pat),
{
    assert forall|k: int| 0 <= k < pat.len() - 1 implies !(#[trigger] pat[k] == x && pat[k + 1]
        == y) by {
        if pat[k] == x {
            assert(pat.contains(x));
        }
    }
}

proof fn lemma_pair_free_right(x: char, y: char, pat: Seq<char>)
    requires
        !pat.contains(y),
    ensures
        pair_free(x, y, pat),
{
    assert forall|k: int| 0 <= k < pat.len() - 1 implies !(#[trigger] pat[k] == x && pat[k + 1]
        == y) by {
        if pat[k + 1] == y {
            assert(pat.contains(y));
        }
    }
}

proof fn lemma_pair_free_lt_right(x: char, pat: Seq<char>)
    requires
        lt_only_at_zero(pat),
    ensures
        pair_free(x, '<', pat),
{
    assert forall|k: int| 0 <= k < pat.len() - 1 implies !(#[trigger] pat[k] == x && pat[k + 1]
        == '<') by {
        assert(pat[k + 1] != '<');
    }
}

/// The tail `finish` appends closes the top-level group and the root
/// element: it holds the root's closing tag exactly once, and neither a new
/// root nor a `<defs>` block.
pub proof fn lemma_footer_structure(pat: Seq<char>)
    requires
        structural_pat(pat),
    ensures
        count_occ(svg_footer(), pat) == if pat == "</svg>"@ {
            1nat
        } else {
            0nat
        },
{
    lemma_structural_pat_facts(pat);
    let f1 = "    "@;
    let f2 = "</g>\n"@;
    let f3 = "</svg>\n\n"@;
    reveal_strlit("    ");
    reveal_strlit("</g>\n");
    reveal_strlit("</svg>\n\n");
    reveal_strlit("<svg");
    reveal_strlit("</svg>");
    reveal_strlit("<defs");
    assert(!f1.contains('<')) by {
        assert(forall|i: int| 0 <= i < f1.len() ==> #[trigger] f1[i] != '<');
    }
    lemma_count_zero_missing(f1, pat, '<');
    assert(lt_only_at_zero(f2));
    lemma_count_piece(f2, pat);
    assert(count_occ(f2, pat) == 0) by {
        if f2.len() >= pat.len() && f2.subrange(0, pat.len() as int) == pat {
            assert(f2.subrange(0, pat.len() as int)[1] == f2[1]);
            assert(false);
        }
    }
    assert(lt_only_at_zero(f3));
    lemma_count_piece(f3, pat);
    if pat == "</svg>"@ {
        assert(f3.subrange(0, 6) =~= pat);
        assert(count_occ(f3, pat) == 1);
    } else {
        assert(count_occ(f3, pat) == 0) by {
            if f3.len() >= pat.len() && f3.subrange(0, pat.len() as int) == pat {
                assert(f3.subrange(0, pat.len() as int)[1] == f3[1]);
                assert(false);
            }
        }
    }
    lemma_pair_free_lt_right(f1.last(), pat);
    lemma_count_join(f1, f2, pat);
    lemma_pair_free_lt_right((f1 + f2).last(), pat);
    lemma_count_join(f1 + f2, f3, pat);
    assert(svg_footer() == f1 + f2 + f3);
}

/// A rule paints content only: it adds no root element and no `<defs>`
/// block, whatever its geometry.
pub proof fn lemma_rule_frag_structure(pos: Cursor, width: Px, height: Px, pat: Seq<char>)
    requires
        structural_pat(pat),
    ensures
        count_occ(rule_frag(pos, width, height), pat) == 0,
        rule_frag(pos, width, height).len() > 0,
        rule_frag(pos, width, height).first() == '<',
{
    lemma_structural_pat_facts(pat);
    let x = px_plain(pos.x);
    let y = px_plain(pos.y);
    let w = px_plain(width);
    let h = px_plain(height);
    lemma_px_num(pos.x);
    lemma_px_num(pos.y);
    lemma_px_num(width);
    lemma_px_num(height);
    lemma_num_no_lt(x);
    lemma_num_no_lt(y);
    lemma_num_no_lt(w);
    lemma_num_no_lt(h);
    let r1 = "<rect x=\""@;
    let r2 = "\" y =\""@;
    let r3 = "\" width=\""@;
    let r4 = "\" height=\""@;
    let r5 = "\" fill=\"#000\"/>\n"@;
    reveal_strlit("<rect x=\"");
    reveal_strlit("\" y =\"");
    reveal_strlit("\" width=\"");
    reveal_strlit("\" height=\"");
    reveal_strlit("\" fill=\"#000\"/>\n");
    assert(lt_only_at_zero(r1));
    assert(!r2.contains('<')) by {
        assert(forall|i: int| 0 <= i < r2.len() ==> #[trigger] r2[i] != '<');
    }
    assert(!r3.contains('<')) by {
        assert(forall|i: int| 0 <= i < r3.len() ==> #[trigger] r3[i] != '<');
    }
    assert(!r4.contains('<')) by {
        assert(forall|i: int| 0 <= i < r4.len() ==> #[trigger] r4[i] != '<');
    }
    assert(!r5.contains('<')) by {
        assert(forall|i: int| 0 <= i < r5.len() ==> #[trigger] r5[i] != '<');
    }
    lemma_lt_chunk(r1, x);
    lemma_lt_chunk(r1 + x, r2);
    lemma_lt_chunk(r1 + x + r2, y);
    lemma_lt_chunk(r1 + x + r2 + y, r3);
    lemma_lt_chunk(r1 + x + r2 + y + r3, w);
    lemma_lt_chunk(r1 + x + r2 + y + r3 + w, r4);
    lemma_lt_chunk(r1 + x + r2 + y + r3 + w + r4, h);
    lemma_lt_chunk(r1 + x + r2 + y + r3 + w + r4 + h, r5);
    let s = rule_frag(pos, width, height);
    assert(s == r1 + x + r2 + y + r3 + w + r4 + h + r5);
    lemma_count_piece(s, pat);
    assert(s[1] == r1[1]);
    assert(count_occ(s, pat) == 0) by {
        if s.len() >= pat.len() && s.subrange(0, pat.len() as int) == pat {
            assert(s.subrange(0, pat.len() as int)[1] == s[1]);
            assert(false);
        }
    }
    assert(s[0] == r1[0]);
}

/// A debug bounding box paints content only: it adds no root element and no
/// `<defs>` block, whatever its geometry.
pub proof fn lemma_bbox_frag_structure(pos: Cursor, width: Px, height: Px, pat: Seq<char>)
    requires
        structural_pat(pat),
    ensures
        count_occ(bbox_frag(pos, width, height), pat) == 0,
        bbox_frag(pos, width, height).len() > 0,
        bbox_frag(pos, width, height).first() == '<',
{
    lemma_structural_pat_facts(pat);
    let x = px_plain(pos.x);
    let y = px_plain(pos.y);
    let w = px_plain(width);
    let h = px_plain(height);
    lemma_px_num(pos.x);
    lemma_px_num(pos.y);
    lemma_px_num(width);
    lemma_px_num(height);
    lemma_num_no_lt(x);
    lemma_num_no_lt(y);
    lemma_num_no_lt(w);
    lemma_num_no_lt(h);
    let r1 = "<rect x=\""@;
    let r2 = "\" y=\""@;
    let r3 = "\" width=\""@;
    let r4 = "\" height=\""@;
    let r5 = "\" fill=\"none\" stroke=\"blue\" stroke-width=\"0.2\"/>\n"@;
    reveal_strlit("<rect x=\"");
    reveal_strlit("\" y=\"");
    reveal_strlit("\" width=\"");
    reveal_strlit("\" height=\"");
    reveal_strlit("\" fill=\"none\" stroke=\"blue\" stroke-width=\"0.2\"/>\n");
    assert(lt_only_at_zero(r1));
    assert(!r2.contains('<')) by {
        assert(forall|i: int| 0 <= i < r2.len() ==> #[trigger] r2[i] != '<');
    }
    assert(!r3.contains('<')) by {
        assert(forall|i: int| 0 <= i < r3.len() ==> #[trigger] r3[i] != '<');
    }
    assert(!r4.contains('<')) by {
        assert(forall|i: int| 0 <= i < r4.len() ==> #[trigger] r4[i] != '<');
    }
    assert(!r5.contains('<')) by {
        assert(forall|i: int| 0 <= i < r5.len() ==> #[trigger] r5[i] != '<');
    }
    lemma_lt_chunk(r1, x);
    lemma_lt_chunk(r1 + x, r2);
    lemma_lt_chunk(r1 + x + r2, y);
    lemma_lt_chunk(r1 + x + r2 + y, r3);
    lemma_lt_chunk(r1 + x + r2 + y + r3, w);
    lemma_lt_chunk(r1 + x + r2 + y + r3 + w, r4);
    lemma_lt_chunk(r1 + x + r2 + y + r3 + w + r4, h);
    lemma_lt_chunk(r1 + x + r2 + y + r3 + w + r4 + h, r5);
    let s = bbox_frag(pos, width, height);
    assert(s == r1 + x + r2 + y + r3 + w + r4 + h + r5);
    lemma_count_piece(s, pat);
    assert(s[1] == r1[1]);
    assert(count_occ(s, pat) == 0) by {
        if s.len() >= pat.len() && s.subrange(0, pat.len() as int) == pat {
            assert(s.subrange(0, pat.len() as int)[1] == s[1]);
            assert(false);
        }
    }
    assert(s[0] == r1[0]);
}

/// A glyph paints content only: it adds no root element and no `<defs>`
/// block, whatever its position, scale, or character.
pub proof fn lemma_symbol_frag_structure(pos: Cursor, c: char, scale: Px, pat: Seq<char>)
    requires
        structural_pat(pat),
    ensures
        count_occ(symbol_frag(pos, c, scale), pat) == 0,
        symbol_frag(pos, c, scale).len() > 0,
        symbol_frag(pos, c, scale).first() == '<',
{
    lemma_structural_pat_facts(pat);
    let x = px_plain(pos.x);
    let y = px_plain(pos.y);
    lemma_px_num(pos.x);
    lemma_px_num(pos.y);
    lemma_px_num(scale);
    lemma_num_no_lt(x);
    lemma_num_no_lt(y);
    lemma_num_no_lt(px_two(scale));
    let l1 = "<text transform=\"translate("@;
    let l2 = ", "@;
    let l3 = ")\">"@;
    let l3s = ") scale("@;
    let l4 = "</text>\n"@;
    reveal_strlit("<text transform=\"translate(");
    reveal_strlit(", ");
    reveal_strlit(")\">");
    reveal_strlit(") scale(");
    reveal_strlit("</text>\n");
    assert(lt_only_at_zero(l1));
    assert(!l2.contains('<')) by {
        assert(forall|i: int| 0 <= i < l2.len() ==> #[trigger] l2[i] != '<');
    }
    assert(!l3.contains('<')) by {
        assert(forall|i: int| 0 <= i < l3.len() ==> #[trigger] l3[i] != '<');
    }
    assert(!l3s.contains('<')) by {
        assert(forall|i: int| 0 <= i < l3s.len() ==> #[trigger] l3s[i] != '<');
    }
    let a = if scale.cents == 100 {
        l1 + x + l2 + y + l3
    } else {
        l1 + x + l2 + y + l3s + px_two(scale) + l3
    };
    lemma_lt_chunk(l1, x);
    lemma_lt_chunk(l1 + x, l2);
    lemma_lt_chunk(l1 + x + l2, y);
    if scale.cents == 100 {
        lemma_lt_chunk(l1 + x + l2 + y, l3);
    } else {
        lemma_lt_chunk(l1 + x + l2 + y, l3s);
        lemma_lt_chunk(l1 + x + l2 + y + l3s, px_two(scale));
        lemma_lt_chunk(l1 + x + l2 + y + l3s + px_two(scale), l3);
    }
    assert(lt_only_at_zero(a));
    lemma_count_piece(a, pat);
    assert(a[1] == l1[1]);
    assert(count_occ(a, pat) == 0) by {
        if a.len() >= pat.len() && a.subrange(0, pat.len() as int) == pat {
            assert(a.subrange(0, pat.len() as int)[1] == a[1]);
            assert(false);
        }
    }
    let b = seq![c];
    assert(count_occ(b, pat) == 0);
    assert(lt_only_at_zero(l4));
    lemma_count_piece(l4, pat);
    assert(count_occ(l4, pat) == 0) by {
        if l4.len() >= pat.len() && l4.subrange(0, pat.len() as int) == pat {
            assert(l4.subrange(0, pat.len() as int)[1] == l4[1]);
            assert(l4.subrange(0, pat.len() as int)[2] == l4[2]);
            assert(false);
        }
    }
    assert(a.last() == l3.last());
    assert(pair_free(a.last(), c, pat)) by {
        assert(forall|k: int| 0 <= k < pat.len() - 1 ==> #[trigger] pat[k] != '>') by {
            lemma_gt_only_at_end(pat);
        }
    }
    lemma_count_join(a, b, pat);
    lemma_pair_free_lt_right((a + b).last(), pat);
    lemma_count_join(a + b, l4, pat);
    let s = symbol_frag(pos, c, scale);
    assert(s == a + b + l4);
    assert(s[0] == l1[0]);
}

/// In the structural tags, `>` can stand only as the very last character.
proof fn lemma_gt_only_at_end(pat: Seq<char>)
    requires
        structural_pat(pat),
    ensures
        forall|i: int| 0 <= i < pat.len() - 1 ==> #[trigger] pat[i] != '>',
{
    reveal_strlit("<svg");
    reveal_strlit("</svg>");
    reveal_strlit("<defs");
    if pat == "<svg"@ {
        assert(forall|i: int| 0 <= i < pat.len() - 1 ==> #[trigger] pat[i] != '>');
    } else if pat == "</svg>"@ {
        assert(forall|i: int| 0 <= i < pat.len() - 1 ==> #[trigger] pat[i] != '>');
    } else {
        assert(forall|i: int| 0 <= i < pat.len() - 1 ==> #[trigger] pat[i] != '>');
    }
}

/// A color scope's own tags are content only: neither its opening fill-group
/// nor its closing tag adds a root element or a `<defs>` block.
pub proof fn lemma_color_frag_structure(color: Seq<char>, pat: Seq<char>)
    requires
        structural_pat(pat),
        !color.contains('<'),
    ensures
        count_occ(color_open(color), pat) == 0,
        count_occ(color_close(), pat) == 0,
        color_open(color).len() > 0,
        color_open(color).first() == '<',
        color_close().len() > 0,
        color_close().first() == '<',
{
    lemma_structural_pat_facts(pat);
    let o1 = "<g fill=\""@;
    let o3 = "\">\n"@;
    let cl = "</g>\n"@;
    reveal_strlit("<g fill=\"");
    reveal_strlit("\">\n");
    reveal_strlit("</g>\n");
    assert(lt_only_at_zero(o1));
    assert(!o3.contains('<')) by {
        assert(forall|i: int| 0 <= i < o3.len() ==> #[trigger] o3[i] != '<');
    }
    lemma_lt_chunk(o1, color);
    lemma_lt_chunk(o1 + color, o3);
    let s = color_open(color);
    assert(s == o1 + color + o3);
    lemma_count_piece(s, pat);
    assert(s[1] == o1[1]);
    assert(count_occ(s, pat) == 0) by {
        if s.len() >= pat.len() && s.subrange(0, pat.len() as int) == pat {
            assert(s.subrange(0, pat.len() as int)[1] == s[1]);
            assert(false);
        }
    }
    assert(lt_only_at_zero(cl));
    lemma_count_piece(cl, pat);
    assert(count_occ(cl, pat) == 0) by {
        if cl.len() >= pat.len() && cl.subrange(0, pat.len() as int) == pat {
            assert(cl.subrange(0, pat.len() as int)[1] == cl[1]);
            assert(cl.subrange(0, pat.len() as int)[2] == cl[2]);
            assert(false);
        }
    }
    assert(s[0] == o1[0]);
    assert(color_close() == cl);
}

/// The head `prepare` appends opens the root element and the `<defs>` block
/// exactly once each, and never closes a root, provided the configured font
/// URL smuggles no markup in.
pub proof fn lemma_header_structure(
    width: Px,
    height: Px,
    font_src: Seq<char>,
    font_size: Px,
    pat: Seq<char>,
)
    requires
        structural_pat(pat),
        !font_src.contains('<'),
    ensures
        count_occ(svg_header(width, height, font_src, font_size), pat) == if pat == "</svg>"@ {
            0nat
        } else {
            1nat
        },
{
    lemma_structural_pat_facts(pat);
    let x1 = px_two(width);
    let x2 = px_two(height);
    let x3 = px_one(font_size);
    lemma_px_num(width);
    lemma_px_num(height);
    lemma_px_num(font_size);
    lemma_num_no_lt(x1);
    lemma_num_no_lt(x2);
    lemma_num_no_lt(x3);
    let h1 = "<?xml version=\"1.0\" encoding=\"UTF-8\" standalone=\"no\"?>\n"@;
    let h2 =
        "<!DOCTYPE svg PUBLIC \"-//W3C//DTD SVG 1.1//EN\" \"http://www.w3.org/Graphics/SVG/1.1/DTD/svg11.dtd\">\n"@;
    let h3 = "<svg width=\""@;
    let h4 = "\" height=\""@;
    let h5 = "\" xmlns=\"http://www.w3.org/2000/svg\">\n    "@;
    let h6 = "<defs>\n    "@;
    let h7 = "<style type=\"text/css\">@font-face{font-family:rex;src:url('"@;
    let h8 = "');}"@;
    let h9 = "</style>\n    "@;
    let h10 = "</defs>\n    "@;
    let h11 = "<g font-family=\"rex\" font-size=\""@;
    let h12 = "px\">\n"@;
    reveal_strlit("<?xml version=\"1.0\" encoding=\"UTF-8\" standalone=\"no\"?>\n");
    reveal_strlit(
        "<!DOCTYPE svg PUBLIC \"-//W3C//DTD SVG 1.1//EN\" \"http://www.w3.org/Graphics/SVG/1.1/DTD/svg11.dtd\">\n",
    );
    reveal_strlit("<svg width=\"");
    reveal_strlit("\" height=\"");
    reveal_strlit("\" xmlns=\"http://www.w3.org/2000/svg\">\n    ");
    reveal_strlit("<defs>\n    ");
    reveal_strlit("<style type=\"text/css\">@font-face{font-family:rex;src:url('");
    reveal_strlit("');}");
    reveal_strlit("</style>\n    ");
    reveal_strlit("</defs>\n    ");
    reveal_strlit("<g font-family=\"rex\" font-size=\"");
    reveal_strlit("px\">\n");
    reveal_strlit("<svg");
    reveal_strlit("</svg>");
    reveal_strlit("<defs");
    let c3 = h3 + x1 + h4 + x2 + h5;
    let c5 = h7 + font_src + h8;
    let c8 = h11 + x3 + h12;
    // The first two chunks are self-contained lines.
    assert(lt_only_at_zero(h1));
    lemma_count_piece(h1, pat);
    assert(count_occ(h1, pat) == 0) by {
        if h1.len() >= pat.len() && h1.subrange(0, pat.len() as int) == pat {
            assert(h1.subrange(0, pat.len() as int)[1] == h1[1]);
            assert(false);
        }
    }
    assert(lt_only_at_zero(h2));
    lemma_count_piece(h2, pat);
    assert(count_occ(h2, pat) == 0) by {
        if h2.len() >= pat.len() && h2.subrange(0, pat.len() as int) == pat {
            assert(h2.subrange(0, pat.len() as int)[1] == h2[1]);
            assert(false);
        }
    }
    // The root element chunk.
    assert(!h4.contains('<')) by {
        assert(forall|i: int| 0 <= i < h4.len() ==> #[trigger] h4[i] != '<');
    }
    assert(!h5.contains('<')) by {
        assert(forall|i: int| 0 <= i < h5.len() ==> #[trigger] h5[i] != '<');
    }
    assert(lt_only_at_zero(h3));
    lemma_lt_chunk(h3, x1);
    lemma_lt_chunk(h3 + x1, h4);
    lemma_lt_chunk(h3 + x1 + h4, x2);
    lemma_lt_chunk(h3 + x1 + h4 + x2, h5);
    lemma_count_piece(c3, pat);
    assert(c3[1] == h3[1]);
    assert(c3[2] == h3[2]);
    if pat == "<svg"@ {
        assert(c3.subrange(0, 4) =~= h3.subrange(0, 4));
        assert(h3.subrange(0, 4) =~= pat);
        assert(count_occ(c3, pat) == 1);
    } else {
        assert(count_occ(c3, pat) == 0) by {
            if c3.len() >= pat.len() && c3.subrange(0, pat.len() as int) == pat {
                assert(c3.subrange(0, pat.len() as int)[1] == c3[1]);
                assert(false);
            }
        }
    }
    // The defs chunk.
    assert(lt_only_at_zero(h6));
    lemma_count_piece(h6, pat);
    if pat == "<defs"@ {
        assert(h6.subrange(0, 5) =~= pat);
        assert(count_occ(h6, pat) == 1);
    } else {
        assert(count_occ(h6, pat) == 0) by {
            if h6.len() >= pat.len() && h6.subrange(0, pat.len() as int) == pat {
                assert(h6.subrange(0, pat.len() as int)[1] == h6[1]);
                assert(false);
            }
        }
    }
    // The style chunk, holding the caller's font URL.
    assert(lt_only_at_zero(h7));
    assert(!h8.contains('<')) by {
        assert(forall|i: int| 0 <= i < h8.len() ==> #[trigger] h8[i] != '<');
    }
    lemma_lt_chunk(h7, font_src);
    lemma_lt_chunk(h7 + font_src, h8);
    lemma_count_piece(c5, pat);
    assert(c5[1] == h7[1]);
    assert(c5[2] == h7[2]);
    assert(count_occ(c5, pat) == 0) by {
        if c5.len() >= pat.len() && c5.subrange(0, pat.len() as int) == pat {
            assert(c5.subrange(0, pat.len() as int)[1] == c5[1]);
            assert(c5.subrange(0, pat.len() as int)[2] == c5[2]);
            assert(false);
        }
    }
    // The two closing chunks.
    assert(lt_only_at_zero(h9));
    lemma_count_piece(h9, pat);
    assert(count_occ(h9, pat) == 0) by {
        if h9.len() >= pat.len() && h9.subrange(0, pat.len() as int) == pat {
            assert(h9.subrange(0, pat.len() as int)[1] == h9[1]);
            assert(h9.subrange(0, pat.len() as int)[3] == h9[3]);
            assert(false);
        }
    }
    assert(lt_only_at_zero(h10));
    lemma_count_piece(h10, pat);
    assert(count_occ(h10, pat) == 0) by {
        if h10.len() >= pat.len() && h10.subrange(0, pat.len() as int) == pat {
            assert(h10.subrange(0, pat.len() as int)[1] == h10[1]);
            assert(h10.subrange(0, pat.len() as int)[2] == h10[2]);
            assert(false);
        }
    }
    // The top-level group chunk.
    assert(lt_only_at_zero(h11));
    assert(!h12.contains('<')) by {
        assert(forall|i: int| 0 <= i < h12.len() ==> #[trigger] h12[i] != '<');
    }
    lemma_lt_chunk(h11, x3);
    lemma_lt_chunk(h11 + x3, h12);
    lemma_count_piece(c8, pat);
    assert(c8[1] == h11[1]);
    assert(count_occ(c8, pat) == 0) by {
        if c8.len() >= pat.len() && c8.subrange(0, pat.len() as int) == pat {
            assert(c8.subrange(0, pat.len() as int)[1] == c8[1]);
            assert(false);
        }
    }
    // Join the chunks; each begins with an opening bracket, so no occurrence
    // crosses a chunk boundary.
    assert(c3.first() == h3[0]);
    assert(c5.first() == h7[0]);
    assert(c8.first() == h11[0]);
    lemma_pair_free_lt_right(h1.last(), pat);
    lemma_count_join(h1, h2, pat);
    lemma_pair_free_lt_right((h1 + h2).last(), pat);
    lemma_count_join(h1 + h2, c3, pat);
    lemma_pair_free_lt_right((h1 + h2 + c3).last(), pat);
    lemma_count_join(h1 + h2 + c3, h6, pat);
    lemma_pair_free_lt_right((h1 + h2 + c3 + h6).last(), pat);
    lemma_count_join(h1 + h2 + c3 + h6, c5, pat);
    lemma_pair_free_lt_right((h1 + h2 + c3 + h6 + c5).last(), pat);
    lemma_count_join(h1 + h2 + c3 + h6 + c5, h9, pat);
    lemma_pair_free_lt_right((h1 + h2 + c3 + h6 + c5 + h9).last(), pat);
    lemma_count_join(h1 + h2 + c3 + h6 + c5 + h9, h10, pat);
    lemma_pair_free_lt_right((h1 + h2 + c3 + h6 + c5 + h9 + h10).last(), pat);
    lemma_count_join(h1 + h2 + c3 + h6 + c5 + h9 + h10, c8, pat);
    assert(svg_header(width, height, font_src, font_size) =~= h1 + h2 + c3 + h6 + c5 + h9 + h10
        + c8);
}

/// Growing a document body by one content fragment keeps it free of
/// structural tags: a fragment always begins with its own opening bracket,
/// so nothing new arises at the boundary either.
pub proof fn lemma_body_extend(body: Seq<char>, frag: Seq<char>, pat: Seq<char>)
    requires
        structural_pat(pat),
        count_occ(body, pat) == 0,
        count_occ(frag, pat) == 0,
        frag.len() > 0 ==> frag.first() == '<',
    ensures
        count_occ(body + frag, pat) == 0,
{
    lemma_structural_pat_facts(pat);
    if frag.len() > 0 {
        lemma_pair_free_lt_right(body.last(), pat);
    }
    lemma_count_join(body, frag, pat);
}

/// Every `prepare`/`finish` pair yields a single well-rooted document: around
/// any body free of structural tags, the document opens exactly one root
/// `<svg>` element, closes exactly one, holds exactly one `<defs>` block, and
/// ends by closing the top-level group and the root.
pub proof fn lemma_document_structure(
    width: Px,
    height: Px,
    font_src: Seq<char>,
    font_size: Px,
    body: Seq<char>,
)
    requires
        !font_src.contains('<'),
        count_occ(body, "<svg"@) == 0,
        count_occ(body, "</svg>"@) == 0,
        count_occ(body, "<defs"@) == 0,
    ensures
        ({
            let doc = svg_header(width, height, font_src, font_size) + body + svg_footer();
            &&& count_occ(doc, "<svg"@) == 1
            &&& count_occ(doc, "</svg>"@) == 1
            &&& count_occ(doc, "<defs"@) == 1
            &&& doc == doc.subrange(0, doc.len() - svg_footer().len()) + svg_footer()
        }),
{
    let header = svg_header(width, height, font_src, font_size);
    let footer = svg_footer();
    let doc = header + body + footer;
    reveal_strlit("px\">\n");
    reveal_strlit("    ");
    assert(header.last() == "px\">\n"@.last());
    assert(footer.first() == "    "@.first());
    assert forall|pat: Seq<char>| structural_pat(pat) implies count_occ(doc, pat) == 1 by {
        lemma_structural_pat_facts(pat);
        lemma_header_structure(width, height, font_src, font_size, pat);
        lemma_footer_structure(pat);
        lemma_pair_free_left(header.last(), body.first(), pat);
        lemma_count_join(header, body, pat);
        lemma_pair_free_right((header + body).last(), footer.first(), pat);
        lemma_count_join(header + body, footer, pat);
    }
    assert(structural_pat("<svg"@));
    assert(structural_pat("</svg>"@));
    assert(structural_pat("<defs"@));
    assert(doc =~= doc.subrange(0, doc.len() - footer.len()) + footer);
}

/// An empty render — `prepare` directly followed by `finish` — is already a
/// single well-rooted document.
pub proof fn lemma_empty_render(width: Px, height: Px, font_src: Seq<char>, font_size: Px)
    requires
        !font_src.contains('<'),
    ensures
        ({
            let doc = svg_header(width, height, font_src, font_size) + svg_footer();
            &&& count_occ(doc, "<svg"@) == 1
            &&& count_occ(doc, "</svg>"@) == 1
            &&& count_occ(doc, "<defs"@) == 1
        }),
{
    let body = Seq::<char>::empty();
    assert(count_occ(body, "<svg"@) == 0);
    assert(count_occ(body, "</svg>"@) == 0);
    assert(count_occ(body, "<defs"@) == 0);
    lemma_document_structure(width, height, font_src, font_size, body);
    assert(svg_header(width, height, font_src, font_size) + body + svg_footer() =~= svg_header(
        width,
        height,
        font_src,
        font_size,
    ) + svg_footer());
}

/// A glyph at scale one carries no `scale(...)` transform component; at any
/// other scale it carries exactly one.
pub proof fn lemma_symbol_scale_transform(pos: Cursor, c: char, scale: Px)
    ensures
        count_occ(symbol_frag(pos, c, scale), "scale("@) == if scale.cents == 100 {
            0nat
        } else {
            1nat
        },
{
    let pat = "scale("@;
    reveal_strlit("scale(");
    let x = px_plain(pos.x);
    let y = px_plain(pos.y);
    let sc = px_two(scale);
    lemma_px_num(pos.x);
    lemma_px_num(pos.y);
    lemma_px_num(scale);
    let l1 = "<text transform=\"translate("@;
    let l2 = ", "@;
    let l3 = ")\">"@;
    let l3s = ") scale("@;
    let l4 = "</text>\n"@;
    reveal_strlit("<text transform=\"translate(");
    reveal_strlit(", ");
    reveal_strlit(")\">");
    reveal_strlit(") scale(");
    reveal_strlit("</text>\n");
    assert(pat[1] == 'c');
    assert(pat.contains('c'));
    // No piece but the explicit transform holds the pattern's characters in
    // a row: none of them even holds a 'c'.
    assert(!l1.contains('c')) by {
        assert(forall|i: int| 0 <= i < l1.len() ==> #[trigger] l1[i] != 'c');
    }
    assert(!l2.contains('c')) by {
        assert(forall|i: int| 0 <= i < l2.len() ==> #[trigger] l2[i] != 'c');
    }
    assert(!l3.contains('c')) by {
        assert(forall|i: int| 0 <= i < l3.len() ==> #[trigger] l3[i] != 'c');
    }
    assert(!l4.contains('c')) by {
        assert(forall|i: int| 0 <= i < l4.len() ==> #[trigger] l4[i] != 'c');
    }
    lemma_count_zero_missing(l1, pat, 'c');
    lemma_count_zero_missing(l2, pat, 'c');
    lemma_count_zero_missing(l3, pat, 'c');
    lemma_count_zero_missing(l4, pat, 'c');
    lemma_num_no_char(x, 'c');
    lemma_num_no_char(y, 'c');
    lemma_num_no_char(sc, 'c');
    lemma_count_zero_missing(x, pat, 'c');
    lemma_count_zero_missing(y, pat, 'c');
    lemma_count_zero_missing(sc, pat, 'c');
    // No occurrence crosses a boundary: the pattern holds no digit, sign,
    // point, comma, closing parenthesis or bracket.
    assert(!pat.contains(',')) by {
        assert(forall|i: int| 0 <= i < pat.len() ==> #[trigger] pat[i] != ',');
    }
    assert(!pat.contains(')')) by {
        assert(forall|i: int| 0 <= i < pat.len() ==> #[trigger] pat[i] != ')');
    }
    assert(!pat.contains('>')) by {
        assert(forall|i: int| 0 <= i < pat.len() ==> #[trigger] pat[i] != '>');
    }
    assert(!pat.contains('<')) by {
        assert(forall|i: int| 0 <= i < pat.len() ==> #[trigger] pat[i] != '<');
    }
    assert(x.len() > 0 && y.len() > 0 && sc.len() > 0);
    assert(!pat.contains(x.first())) by {
        if pat.contains(x.first()) {
            let i = choose|i: int| 0 <= i < pat.len() && pat[i] == x.first();
            assert(is_num_char(x[0]));
        }
    }
    assert(!pat.contains(y.first())) by {
        if pat.contains(y.first()) {
            let i = choose|i: int| 0 <= i < pat.len() && pat[i] == y.first();
            assert(is_num_char(y[0]));
        }
    }
    assert(!pat.contains(sc.first())) by {
        if pat.contains(sc.first()) {
            let i = choose|i: int| 0 <= i < pat.len() && pat[i] == sc.first();
            assert(is_num_char(sc[0]));
        }
    }
    lemma_pair_free_right(l1.last(), x.first(), pat);
    lemma_count_join(l1, x, pat);
    lemma_pair_free_right((l1 + x).last(), l2.first(), pat);
    lemma_count_join(l1 + x, l2, pat);
    lemma_pair_free_right((l1 + x + l2).last(), y.first(), pat);
    lemma_count_join(l1 + x + l2, y, pat);
    if scale.cents == 100 {
        lemma_pair_free_right((l1 + x + l2 + y).last(), l3.first(), pat);
        lemma_count_join(l1 + x + l2 + y, l3, pat);
        let a = l1 + x + l2 + y + l3;
        assert(a.last() == l3.last());
        lemma_pair_free_left(a.last(), c, pat);
        lemma_count_join(a, seq![c], pat);
        assert(count_occ(seq![c], pat) == 0);
        lemma_pair_free_right((a + seq![c]).last(), l4.first(), pat);
        lemma_count_join(a + seq![c], l4, pat);
        assert(symbol_frag(pos, c, scale) == a + seq![c] + l4);
    } else {
        // The explicit transform holds the pattern exactly once.
        let p1 = ") "@;
        reveal_strlit(") ");
        assert(l3s =~= p1 + pat);
        assert(count_occ(pat.drop_first(), pat) == 0);
        assert(pat.subrange(0, pat.len() as int) =~= pat);
        assert(count_occ(pat, pat) == 1);
        assert(pair_free(p1.last(), pat.first(), pat)) by {
            assert(!pat.contains(' ')) by {
                assert(forall|i: int| 0 <= i < pat.len() ==> #[trigger] pat[i] != ' ');
            }
            lemma_pair_free_left(p1.last(), pat.first(), pat);
        }
        lemma_count_join(p1, pat, pat);
        assert(count_occ(l3s, pat) == 1);
        lemma_pair_free_right((l1 + x + l2 + y).last(), l3s.first(), pat);
        lemma_count_join(l1 + x + l2 + y, l3s, pat);
        lemma_pair_free_right((l1 + x + l2 + y + l3s).last(), sc.first(), pat);
        lemma_count_join(l1 + x + l2 + y + l3s, sc, pat);
        lemma_pair_free_right((l1 + x + l2 + y + l3s + sc).last(), l3.first(), pat);
        lemma_count_join(l1 + x + l2 + y + l3s + sc, l3, pat);
        let a = l1 + x + l2 + y + l3s + sc + l3;
        assert(a.last() == l3.last());
        lemma_pair_free_left(a.last(), c, pat);
        lemma_count_join(a, seq![c], pat);
        assert(count_occ(seq![c], pat) == 0);
        lemma_pair_free_right((a + seq![c]).last(), l4.first(), pat);
        lemma_count_join(a + seq![c], l4, pat);
        assert(symbol_frag(pos, c, scale) == a + seq![c] + l4);
    }
}

/// A rule is exactly one rectangle element.
pub proof fn lemma_rule_frag_one_rect(pos: Cursor, width: Px, height: Px)
    ensures
        count_occ(rule_frag(pos, width, height), "<rect"@) == 1,
{
    let pat = "<rect"@;
    reveal_strlit("<rect");
    reveal_strlit("<rect x=\"");
    let r1 = "<rect x=\""@;
    lemma_px_num(pos.x);
    lemma_px_num(pos.y);
    lemma_px_num(width);
    lemma_px_num(height);
    lemma_num_no_lt(px_plain(pos.x));
    lemma_num_no_lt(px_plain(pos.y));
    lemma_num_no_lt(px_plain(width));
    lemma_num_no_lt(px_plain(height));
    let r2 = "\" y =\""@;
    let r3 = "\" width=\""@;
    let r4 = "\" height=\""@;
    let r5 = "\" fill=\"#000\"/>\n"@;
    reveal_strlit("\" y =\"");
    reveal_strlit("\" width=\"");
    reveal_strlit("\" height=\"");
    reveal_strlit("\" fill=\"#000\"/>\n");
    assert(lt_only_at_zero(r1));
    assert(!r2.contains('<')) by {
        assert(forall|i: int| 0 <= i < r2.len() ==> #[trigger] r2[i] != '<');
    }
    assert(!r3.contains('<')) by {
        assert(forall|i: int| 0 <= i < r3.len() ==> #[trigger] r3[i] != '<');
    }
    assert(!r4.contains('<')) by {
        assert(forall|i: int| 0 <= i < r4.len() ==> #[trigger] r4[i] != '<');
    }
    assert(!r5.contains('<')) by {
        assert(forall|i: int| 0 <= i < r5.len() ==> #[trigger] r5[i] != '<');
    }
    let s = rule_frag(pos, width, height);
    lemma_lt_chunk(r1, px_plain(pos.x));
    lemma_lt_chunk(r1 + px_plain(pos.x), r2);
    lemma_lt_chunk(r1 + px_plain(pos.x) + r2, px_plain(pos.y));
    lemma_lt_chunk(r1 + px_plain(pos.x) + r2 + px_plain(pos.y), r3);
    lemma_lt_chunk(r1 + px_plain(pos.x) + r2 + px_plain(pos.y) + r3, px_plain(width));
    lemma_lt_chunk(r1 + px_plain(pos.x) + r2 + px_plain(pos.y) + r3 + px_plain(width), r4);
    lemma_lt_chunk(
        r1 + px_plain(pos.x) + r2 + px_plain(pos.y) + r3 + px_plain(width) + r4,
        px_plain(height),
    );
    lemma_lt_chunk(
        r1 + px_plain(pos.x) + r2 + px_plain(pos.y) + r3 + px_plain(width) + r4 + px_plain(
            height,
        ),
        r5,
    );
    lemma_count_piece(s, pat);
    assert(s.subrange(0, 5) =~= r1.subrange(0, 5));
    assert(r1.subrange(0, 5) =~= pat);
}

/// A debug bounding box is exactly one rectangle element.
pub proof fn lemma_bbox_frag_one_rect(pos: Cursor, width: Px, height: Px)
    ensures
        count_occ(bbox_frag(pos, width, height), "<rect"@) == 1,
{
    let pat = "<rect"@;
    reveal_strlit("<rect");
    reveal_strlit("<rect x=\"");
    let r1 = "<rect x=\""@;
    lemma_px_num(pos.x);
    lemma_px_num(pos.y);
    lemma_px_num(width);
    lemma_px_num(height);
    lemma_num_no_lt(px_plain(pos.x));
    lemma_num_no_lt(px_plain(pos.y));
    lemma_num_no_lt(px_plain(width));
    lemma_num_no_lt(px_plain(height));
    let r2 = "\" y=\""@;
    let r3 = "\" width=\""@;
    let r4 = "\" height=\""@;
    let r5 = "\" fill=\"none\" stroke=\"blue\" stroke-width=\"0.2\"/>\n"@;
    reveal_strlit("\" y=\"");
    reveal_strlit("\" width=\"");
    reveal_strlit("\" height=\"");
    reveal_strlit("\" fill=\"none\" stroke=\"blue\" stroke-width=\"0.2\"/>\n");
    assert(lt_only_at_zero(r1));
    assert(!r2.contains('<')) by {
        assert(forall|i: int| 0 <= i < r2.len() ==> #[trigger] r2[i] != '<');
    }
    assert(!r3.contains('<')) by {
        assert(forall|i: int| 0 <= i < r3.len() ==> #[trigger] r3[i] != '<');
    }
    assert(!r4.contains('<')) by {
        assert(forall|i: int| 0 <= i < r4.len() ==> #[trigger] r4[i] != '<');
    }
    assert(!r5.contains('<')) by {
        assert(forall|i: int| 0 <= i < r5.len() ==> #[trigger] r5[i] != '<');
    }
    let s = bbox_frag(pos, width, height);
    lemma_lt_chunk(r1, px_plain(pos.x));
    lemma_lt_chunk(r1 + px_plain(pos.x), r2);
    lemma_lt_chunk(r1 + px_plain(pos.x) + r2, px_plain(pos.y));
    lemma_lt_chunk(r1 + px_plain(pos.x) + r2 + px_plain(pos.y), r3);
    lemma_lt_chunk(r1 + px_plain(pos.x) + r2 + px_plain(pos.y) + r3, px_plain(width));
    lemma_lt_chunk(r1 + px_plain(pos.x) + r2 + px_plain(pos.y) + r3 + px_plain(width), r4);
    lemma_lt_chunk(
        r1 + px_plain(pos.x) + r2 + px_plain(pos.y) + r3 + px_plain(width) + r4,
        px_plain(height),
    );
    lemma_lt_chunk(
        r1 + px_plain(pos.x) + r2 + px_plain(pos.y) + r3 + px_plain(width) + r4 + px_plain(
            height,
        ),
        r5,
    );
    lemma_count_piece(s, pat);
    assert(s.subrange(0, 5) =~= r1.subrange(0, 5));
    assert(r1.subrange(0, 5) =~= pat);
}

/// A color scope is balanced: it contributes exactly one opening fill-group
/// and exactly one closing group tag beyond those of the unit of work that
/// ran inside it, and that unit's whole output stands strictly between the
/// two.
pub proof fn lemma_color_scope_balanced(color: Seq<char>, mid: Seq<char>)
    requires
        !color.contains('<'),
        mid.len() > 0 ==> mid.last() == '\n',
    ensures
        count_occ(color_open(color) + mid + color_close(), "<g fill=\""@) == 1 + count_occ(
            mid,
            "<g fill=\""@,
        ),
        count_occ(color_open(color) + mid + color_close(), "</g>"@) == 1 + count_occ(
            mid,
            "</g>"@,
        ),
{
    let opens = "<g fill=\""@;
    let closes = "</g>"@;
    let o1 = "<g fill=\""@;
    let o3 = "\">\n"@;
    let cl = "</g>\n"@;
    reveal_strlit("<g fill=\"");
    reveal_strlit("\">\n");
    reveal_strlit("</g>\n");
    reveal_strlit("</g>");
    let op = color_open(color);
    assert(op == o1 + color + o3);
    assert(lt_only_at_zero(o1));
    assert(!o3.contains('<')) by {
        assert(forall|i: int| 0 <= i < o3.len() ==> #[trigger] o3[i] != '<');
    }
    lemma_lt_chunk(o1, color);
    lemma_lt_chunk(o1 + color, o3);
    assert(lt_only_at_zero(cl));
    assert(lt_only_at_zero(opens));
    assert(lt_only_at_zero(closes));
    // The opening fragment holds one fill-group opening and no closing tag.
    lemma_count_piece(op, opens);
    assert(op.subrange(0, 9) =~= o1);
    assert(count_occ(op, opens) == 1);
    lemma_count_piece(op, closes);
    assert(count_occ(op, closes) == 0) by {
        if op.len() >= 4 && op.subrange(0, 4) == closes {
            assert(op.subrange(0, 4)[1] == op[1]);
            assert(op[1] == o1[1]);
            assert(false);
        }
    }
    // The closing fragment holds one closing tag and no fill-group opening.
    lemma_count_piece(cl, closes);
    assert(cl.subrange(0, 4) =~= closes);
    assert(count_occ(cl, closes) == 1);
    lemma_count_piece(cl, opens);
    assert(count_occ(cl, opens) == 0);
    // No occurrence crosses the two boundaries.
    assert(!opens.contains('\n')) by {
        assert(forall|i: int| 0 <= i < opens.len() ==> #[trigger] opens[i] != '\n');
    }
    assert(!closes.contains('\n')) by {
        assert(forall|i: int| 0 <= i < closes.len() ==> #[trigger] closes[i] != '\n');
    }
    assert(op.last() == o3.last());
    lemma_pair_free_left(op.last(), mid.first(), opens);
    lemma_pair_free_left(op.last(), mid.first(), closes);
    lemma_count_join(op, mid, opens);
    lemma_count_join(op, mid, closes);
    if mid.len() > 0 {
        assert((op + mid).last() == mid.last());
        lemma_pair_free_left((op + mid).last(), cl.first(), opens);
        lemma_pair_free_left((op + mid).last(), cl.first(), closes);
    } else {
        assert((op + mid).last() == op.last());
        lemma_pair_free_left((op + mid).last(), cl.first(), opens);
        lemma_pair_free_left((op + mid).last(), cl.first(), closes);
    }
    lemma_count_join(op + mid, cl, opens);
    lemma_count_join(op + mid, cl, closes);
    assert(color_close() == cl);
}

} // verus!

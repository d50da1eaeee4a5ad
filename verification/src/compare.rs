//! The comparison renderer: each side's text is word-wrapped to a fixed
//! column width, and each field yields as many rows as its longer side,
//! the header on the first row only.

use crate::api::TitleData;
use crate::api::spec_field;
use crate::api::value_of;
use crate::catalog::Column;
use crate::render::rows_view;
use vstd::prelude::*;

verus! {

/// The fixed display width of each comparison column.
pub const COLUMN_WIDTH: usize = 40;

/// Splitting into words at spaces, dropping empty fragments; `cur` is the
/// word being accumulated.
pub open spec fn split_acc(s: Seq<char>, cur: Seq<char>) -> Seq<Seq<char>>
    decreases s.len(),
{
    if s.len() == 0 {
        if cur.len() == 0 {
            Seq::empty()
        } else {
            seq![cur]
        }
    } else if s[0] == ' ' {
        if cur.len() == 0 {
            split_acc(s.skip(1), Seq::empty())
        } else {
            seq![cur] + split_acc(s.skip(1), Seq::empty())
        }
    } else {
        split_acc(s.skip(1), cur.push(s[0]))
    }
}

/// The words of a text: maximal runs of non-space characters, in order.
pub open spec fn split_words(s: Seq<char>) -> Seq<Seq<char>> {
    split_acc(s, Seq::empty())
}

/// The views of a vector of words or lines.
pub open spec fn words_view(s: Seq<String>) -> Seq<Seq<char>> {
    s.map_values(|w: String| w@)
}

/// Splits a text into its words.
pub fn split_words_exec(s: &str) -> (r: Vec<String>)
    ensures
        words_view(r@) == split_words(s@),
{
    let n = s.unicode_len();
    let mut r: Vec<String> = Vec::new();
    let mut start: usize = 0;
    let mut i: usize = 0;
    proof {
        assert(s@.skip(0) =~= s@);
        assert(s@.subrange(0, 0) =~= Seq::<char>::empty());
        assert(words_view(r@) =~= Seq::<Seq<char>>::empty());
        assert(words_view(r@) + split_acc(s@, Seq::empty()) =~= split_acc(s@, Seq::empty()));
    }
    while i < n
        invariant
            start <= i <= n,
            n == s@.len(),
            split_words(s@) == words_view(r@) + split_acc(
                s@.skip(i as int),
                s@.subrange(start as int, i as int),
            ),
        decreases n - i,
    {
        let c = s.get_char(i);
        proof {
            let rest = s@.skip(i as int);
            assert(rest[0] == s@[i as int]);
            assert(rest.skip(1) =~= s@.skip(i as int + 1));
        }
        if c == ' ' {
            if start < i {
                let w = s.substring_char(start, i).to_owned();
                let ghost prev = r@;
                r.push(w);
                proof {
                    assert(words_view(r@) =~= words_view(prev) + seq![
                        s@.subrange(start as int, i as int),
                    ]);
                    assert(words_view(prev) + (seq![s@.subrange(start as int, i as int)]
                        + split_acc(s@.skip(i as int + 1), Seq::empty())) =~= words_view(r@)
                        + split_acc(s@.skip(i as int + 1), Seq::empty()));
                }
            }
            start = i + 1;
            proof {
                assert(s@.subrange(start as int, i as int + 1) =~= Seq::<char>::empty());
            }
        } else {
            proof {
                assert(s@.subrange(start as int, i as int).push(s@[i as int]) =~= s@.subrange(
                    start as int,
                    i as int + 1,
                ));
            }
        }
        i = i + 1;
    }
    proof {
        assert(s@.skip(n as int) =~= Seq::<char>::empty());
    }
    if start < n {
        let w = s.substring_char(start, n).to_owned();
        let ghost prev = r@;
        r.push(w);
        proof {
            assert(words_view(r@) =~= words_view(prev) + seq![s@.subrange(start as int, n as int)]);
            assert(words_view(prev) + seq![s@.subrange(start as int, n as int)] =~= words_view(r@));
        }
    } else {
        proof {
            assert(s@.subrange(start as int, n as int) =~= Seq::<char>::empty());
            assert(words_view(r@) + Seq::<Seq<char>>::empty() =~= words_view(r@));
        }
    }
    r
}

/// Greedy wrapping: `cur` is the line being filled. A word is added to the
/// line when it fits behind a separating space; a word longer than the
/// width stands on a line of its own, unbroken.
pub open spec fn wrap_acc(ws: Seq<Seq<char>>, cur: Seq<char>, width: nat) -> Seq<Seq<char>>
    decreases ws.len(),
{
    if ws.len() == 0 {
        if cur.len() == 0 {
            Seq::empty()
        } else {
            seq![cur]
        }
    } else if cur.len() == 0 {
        wrap_acc(ws.skip(1), ws[0], width)
    } else if cur.len() + 1 + ws[0].len() <= width {
        wrap_acc(ws.skip(1), cur + seq![' '] + ws[0], width)
    } else {
        seq![cur] + wrap_acc(ws.skip(1), ws[0], width)
    }
}

/// The wrapped lines of a word sequence.
pub open spec fn wrap_spec(ws: Seq<Seq<char>>, width: nat) -> Seq<Seq<char>> {
    wrap_acc(ws, Seq::empty(), width)
}

/// The wrapped lines of a text.
pub open spec fn wrap_text(s: Seq<char>, width: nat) -> Seq<Seq<char>> {
    wrap_spec(split_words(s), width)
}

/// Wraps words greedily into lines of at most `width` characters; only a
/// single word longer than the width exceeds it, on its own line.
pub fn wrap_words(words: &Vec<String>, width: usize) -> (r: Vec<String>)
    ensures
        words_view(r@) == wrap_spec(words_view(words@), width as nat),
{
    let ghost ws = words_view(words@);
    let mut r: Vec<String> = Vec::new();
    let mut cur = String::new();
    let mut i: usize = 0;
    proof {
        assert(ws.skip(0) =~= ws);
        assert(words_view(r@) =~= Seq::<Seq<char>>::empty());
        assert(words_view(r@) + wrap_acc(ws, cur@, width as nat) =~= wrap_acc(
            ws,
            cur@,
            width as nat,
        ));
    }
    while i < words.len()
        invariant
            i <= words@.len(),
            ws == words_view(words@),
            wrap_spec(ws, width as nat) == words_view(r@) + wrap_acc(
                ws.skip(i as int),
                cur@,
                width as nat,
            ),
        decreases words@.len() - i,
    {
        let w = &words[i];
        proof {
            let rest = ws.skip(i as int);
            assert(rest[0] == ws[i as int]);
            assert(ws[i as int] == words@[i as int]@);
            assert(rest.skip(1) =~= ws.skip(i as int + 1));
        }
        let cur_len = cur.as_str().unicode_len();
        let w_len = w.as_str().unicode_len();
        if cur_len == 0 {
            cur = w.clone();
        } else if (cur_len as u128) + 1 + (w_len as u128) <= (width as u128) {
            proof {
                reveal_strlit(" ");
            }
            let ghost prev = cur@;
            cur.append(" ");
            cur.append(w.as_str());
            proof {
                assert(cur@ =~= prev + seq![' '] + words@[i as int]@);
            }
        } else {
            let ghost prev = r@;
            let ghost cur_view = cur@;
            let next = w.clone();
            r.push(cur);
            cur = next;
            proof {
                assert(words_view(r@) =~= words_view(prev) + seq![cur_view]);
                assert(words_view(prev) + (seq![cur_view] + wrap_acc(
                    ws.skip(i as int + 1),
                    cur@,
                    width as nat,
                )) =~= words_view(r@) + wrap_acc(ws.skip(i as int + 1), cur@, width as nat));
            }
        }
        i = i + 1;
    }
    proof {
        assert(ws.skip(words@.len() as int) =~= Seq::<Seq<char>>::empty());
    }
    if !cur.as_str().is_empty() {
        let ghost prev = r@;
        let ghost cur_view = cur@;
        r.push(cur);
        proof {
            assert(words_view(r@) =~= words_view(prev) + seq![cur_view]);
        }
    } else {
        proof {
            assert(words_view(r@) + Seq::<Seq<char>>::empty() =~= words_view(r@));
        }
    }
    r
}

/// A text without any space character.
pub open spec fn no_space(l: Seq<char>) -> bool {
    forall|j: int| 0 <= j < l.len() ==> l[j] != ' '
}

/// Proper words: nonempty and space-free.
pub open spec fn good_words(ws: Seq<Seq<char>>) -> bool {
    forall|i: int| 0 <= i < ws.len() ==> ((#[trigger] ws[i]).len() > 0 && no_space(ws[i]))
}

/// A proper wrapped line: nonempty, and within the width unless it is a
/// single unbroken word.
pub open spec fn good_line(l: Seq<char>, width: nat) -> bool {
    l.len() > 0 && (l.len() <= width || no_space(l))
}

proof fn lemma_split_acc_good(s: Seq<char>, cur: Seq<char>)
    requires
        no_space(cur),
    ensures
        good_words(split_acc(s, cur)),
    decreases s.len(),
{
    if s.len() == 0 {
    } else if s[0] == ' ' {
        lemma_split_acc_good(s.skip(1), Seq::empty());
        if cur.len() > 0 {
            let out = seq![cur] + split_acc(s.skip(1), Seq::empty());
            assert forall|i: int| 0 <= i < out.len() implies ((#[trigger] out[i]).len() > 0
                && no_space(out[i])) by {
                if i > 0 {
                    assert(out[i] == split_acc(s.skip(1), Seq::empty())[i - 1]);
                }
            }
        }
    } else {
        assert forall|j: int| 0 <= j < cur.push(s[0]).len() implies cur.push(s[0])[j] != ' ' by {
            if j < cur.len() {
                assert(cur.push(s[0])[j] == cur[j]);
            }
        }
        lemma_split_acc_good(s.skip(1), cur.push(s[0]));
    }
}

proof fn lemma_wrap_acc_good(ws: Seq<Seq<char>>, cur: Seq<char>, width: nat)
    requires
        good_words(ws),
        cur.len() == 0 || good_line(cur, width),
    ensures
        forall|i: int|
            0 <= i < wrap_acc(ws, cur, width).len() ==> good_line(
                #[trigger] wrap_acc(ws, cur, width)[i],
                width,
            ),
    decreases ws.len(),
{
    let out = wrap_acc(ws, cur, width);
    if ws.len() == 0 {
        if cur.len() > 0 {
            assert(out =~= seq![cur]);
            assert forall|i: int| 0 <= i < out.len() implies good_line(#[trigger] out[i], width) by {
                assert(out[i] == cur);
            }
        }
    } else {
        assert(good_words(ws.skip(1))) by {
            assert forall|i: int|
                0 <= i < ws.skip(1).len() implies ((#[trigger] ws.skip(1)[i]).len() > 0 && no_space(
                ws.skip(1)[i],
            )) by {
                assert(ws.skip(1)[i] == ws[i + 1]);
            }
        }
        assert(ws[0].len() > 0 && no_space(ws[0]));
        if cur.len() == 0 {
            lemma_wrap_acc_good(ws.skip(1), ws[0], width);
            assert(out == wrap_acc(ws.skip(1), ws[0], width));
        } else if cur.len() + 1 + ws[0].len() <= width {
            let joined = cur + seq![' '] + ws[0];
            assert(good_line(joined, width));
            lemma_wrap_acc_good(ws.skip(1), joined, width);
            assert(out == wrap_acc(ws.skip(1), joined, width));
        } else {
            lemma_wrap_acc_good(ws.skip(1), ws[0], width);
            let rest = wrap_acc(ws.skip(1), ws[0], width);
            assert(out == seq![cur] + rest);
            assert forall|i: int| 0 <= i < out.len() implies good_line(#[trigger] out[i], width) by {
                if i == 0 {
                    assert(out[i] == cur);
                } else {
                    assert(out[i] == rest[i - 1]);
                }
            }
        }
    }
}

/// Law: wrapping never splits a word. Every wrapped line is nonempty and
/// fits the width, except a line carrying a single word longer than the
/// width, which stands alone and unbroken (it holds no space).
pub proof fn lemma_wrap_no_split(s: Seq<char>, width: nat)
    ensures
        forall|i: int|
            0 <= i < wrap_text(s, width).len() ==> good_line(
                #[trigger] wrap_text(s, width)[i],
                width,
            ),
{
    lemma_split_acc_good(s, Seq::empty());
    lemma_wrap_acc_good(split_words(s), Seq::empty(), width);
}

/// `n` spaces.
pub open spec fn spaces(n: nat) -> Seq<char> {
    Seq::new(n, |i: int| ' ')
}

/// The text padded with spaces to the column width; text at or over the
/// width is unchanged.
pub open spec fn pad_spec(s: Seq<char>, w: nat) -> Seq<char> {
    if s.len() >= w {
        s
    } else {
        s + spaces((w - s.len()) as nat)
    }
}

fn pad_to(s: &String, w: usize) -> (r: String)
    ensures
        r@ == pad_spec(s@, w as nat),
{
    let mut r = s.clone();
    let n = r.as_str().unicode_len();
    if n >= w {
        return r;
    }
    let mut j: usize = n;
    proof {
        assert(r@ + spaces(0) =~= r@);
        assert(r@ == s@ + spaces((j - n) as nat));
    }
    while j < w
        invariant
            n <= j <= w,
            n == s@.len(),
            r@ == s@ + spaces((j - n) as nat),
        decreases w - j,
    {
        proof {
            reveal_strlit(" ");
        }
        let ghost prev = r@;
        r.append(" ");
        proof {
            assert(prev + " "@ =~= s@ + spaces((j + 1 - n) as nat));
        }
        j = j + 1;
    }
    r
}

/// One line of a wrapped side, blank past its end.
pub open spec fn line_at(ls: Seq<Seq<char>>, i: int) -> Seq<char> {
    if 0 <= i < ls.len() {
        ls[i]
    } else {
        Seq::empty()
    }
}

/// The larger of two counts.
pub open spec fn max_len(a: nat, b: nat) -> nat {
    if a >= b {
        a
    } else {
        b
    }
}

/// The rows of one compared field: as many rows as the longer side has
/// wrapped lines, the header only on the first, each side padded to the
/// column width and concatenated left then right.
pub open spec fn field_rows_spec(
    header: Seq<char>,
    la: Seq<Seq<char>>,
    lb: Seq<Seq<char>>,
    w: nat,
) -> Seq<(Seq<char>, Seq<char>)> {
    Seq::new(
        max_len(la.len(), lb.len()),
        |i: int|
            (
                if i == 0 {
                    header
                } else {
                    Seq::empty()
                },
                pad_spec(line_at(la, i), w) + pad_spec(line_at(lb, i), w),
            ),
    )
}

/// Renders one field side by side. Law: the field yields exactly as many
/// rows as the longer side's wrapped line count.
pub fn compare_field(header: &str, ta: &str, tb: &str, width: usize) -> (r: Vec<(String, String)>)
    ensures
        rows_view(r@) == field_rows_spec(
            header@,
            wrap_text(ta@, width as nat),
            wrap_text(tb@, width as nat),
            width as nat,
        ),
        r@.len() == max_len(
            wrap_text(ta@, width as nat).len(),
            wrap_text(tb@, width as nat).len(),
        ),
{
    let wa = split_words_exec(ta);
    let la = wrap_words(&wa, width);
    let wb = split_words_exec(tb);
    let lb = wrap_words(&wb, width);
    let ghost sla = wrap_text(ta@, width as nat);
    let ghost slb = wrap_text(tb@, width as nat);
    proof {
        assert(words_view(la@) == sla);
        assert(words_view(lb@) == slb);
    }
    let n = if la.len() >= lb.len() {
        la.len()
    } else {
        lb.len()
    };
    let ghost rows = field_rows_spec(header@, sla, slb, width as nat);
    let empty = String::new();
    let mut r: Vec<(String, String)> = Vec::new();
    let mut i: usize = 0;
    proof {
        assert(rows_view(r@) =~= rows.take(0));
    }
    while i < n
        invariant
            i <= n,
            n as nat == max_len(sla.len(), slb.len()),
            words_view(la@) == sla,
            words_view(lb@) == slb,
            empty@.len() == 0,
            rows == field_rows_spec(header@, sla, slb, width as nat),
            rows_view(r@) == rows.take(i as int),
        decreases n - i,
    {
        let label = if i == 0 {
            header.to_owned()
        } else {
            String::new()
        };
        let lsrc: &String = if i < la.len() {
            &la[i]
        } else {
            &empty
        };
        let mut text = pad_to(lsrc, width);
        let rsrc: &String = if i < lb.len() {
            &lb[i]
        } else {
            &empty
        };
        let rp = pad_to(rsrc, width);
        proof {
            assert(lsrc@ =~= line_at(sla, i as int));
            assert(rsrc@ =~= line_at(slb, i as int));
        }
        text.append(rp.as_str());
        let ghost label_view = label@;
        let ghost text_view = text@;
        let ghost prev = r@;
        r.push((label, text));
        proof {
            assert(label_view == rows[i as int].0);
            assert(text_view == rows[i as int].1);
            assert((label_view, text_view) == rows[i as int]);
            assert(rows_view(r@) =~= rows_view(prev).push((label_view, text_view)));
            assert(rows.take(i as int + 1) =~= rows.take(i as int).push(rows[i as int]));
            assert(rows_view(r@) =~= rows.take(i as int + 1));
        }
        i = i + 1;
    }
    proof {
        assert(rows.take(n as int) =~= rows);
    }
    r
}

/// The text a side contributes for a field: the raw value unmodified, or
/// the explicit placeholder when the value is absent.
pub open spec fn cmp_text(d: TitleData, k: crate::catalog::FieldKey) -> Seq<char> {
    match spec_field(d, k) {
        Some(s) => s@,
        None => "unknown"@,
    }
}

fn text_or_unknown(v: Option<String>) -> (r: String)
    ensures
        r@ == (match v {
            Some(s) => s@,
            None => "unknown"@,
        }),
{
    match v {
        Some(s) => s,
        None => String::from_str("unknown"),
    }
}

/// All rows of the comparison: the given columns in order, each
/// contributing its side-by-side block.
pub open spec fn comparison_spec(
    a: TitleData,
    b: TitleData,
    cols: Seq<Column>,
    w: nat,
) -> Seq<(Seq<char>, Seq<char>)>
    decreases cols.len(),
{
    if cols.len() == 0 {
        Seq::empty()
    } else {
        field_rows_spec(
            cols[0].header@,
            wrap_text(cmp_text(a, cols[0].key), w),
            wrap_text(cmp_text(b, cols[0].key), w),
            w,
        ) + comparison_spec(a, b, cols.skip(1), w)
    }
}

/// Renders two titles side by side over the given columns, the first
/// title always on the left.
pub fn render_comparison(a: &TitleData, b: &TitleData, cols: &Vec<Column>) -> (r: Vec<
    (String, String),
>)
    ensures
        rows_view(r@) == comparison_spec(*a, *b, cols@, COLUMN_WIDTH as nat),
{
    let mut r: Vec<(String, String)> = Vec::new();
    let mut i: usize = 0;
    proof {
        assert(cols@.skip(0) =~= cols@);
        assert(rows_view(r@) =~= Seq::<(Seq<char>, Seq<char>)>::empty());
        assert(rows_view(r@) + comparison_spec(*a, *b, cols@, COLUMN_WIDTH as nat)
            =~= comparison_spec(*a, *b, cols@, COLUMN_WIDTH as nat));
    }
    while i < cols.len()
        invariant
            i <= cols@.len(),
            comparison_spec(*a, *b, cols@, COLUMN_WIDTH as nat) == rows_view(r@)
                + comparison_spec(*a, *b, cols@.skip(i as int), COLUMN_WIDTH as nat),
        decreases cols@.len() - i,
    {
        let col = cols[i];
        proof {
            let rest = cols@.skip(i as int);
            assert(rest[0] == cols@[i as int]);
            assert(rest.skip(1) =~= cols@.skip(i as int + 1));
        }
        let ta = text_or_unknown(value_of(a, col.key));
        let tb = text_or_unknown(value_of(b, col.key));
        let mut rows = compare_field(col.header, ta.as_str(), tb.as_str(), COLUMN_WIDTH);
        let ghost prev = r@;
        let ghost rv = rows@;
        r.append(&mut rows);
        proof {
            assert(rows_view(r@) =~= rows_view(prev) + rows_view(rv));
            assert(rows_view(prev) + (rows_view(rv) + comparison_spec(
                *a,
                *b,
                cols@.skip(i as int + 1),
                COLUMN_WIDTH as nat,
            )) =~= rows_view(r@) + comparison_spec(
                *a,
                *b,
                cols@.skip(i as int + 1),
                COLUMN_WIDTH as nat,
            ));
        }
        i = i + 1;
    }
    proof {
        assert(cols@.skip(cols@.len() as int) =~= Seq::<Column>::empty());
        assert(rows_view(r@) + Seq::<(Seq<char>, Seq<char>)>::empty() =~= rows_view(r@));
    }
    r
}

} // verus!

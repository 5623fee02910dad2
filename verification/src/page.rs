//! The server-rendered trends page: HTML escaping of client-supplied
//! text and the filling of the page shell's slots.

use vstd::prelude::*;

use crate::model::{Daily, Report, RunRow};
use crate::text::{
    chars_of, has_infix, matches_at, occurs_at, push_char, push_signed_decimal, replace_all,
    signed_decimal,
};

verus! {

/// What one character becomes in markup: `&`, `<` and `>` turn into
/// their entities, everything else stays.
pub open spec fn escape_char(c: char) -> Seq<char> {
    if c == '&' {
        seq!['&', 'a', 'm', 'p', ';']
    } else if c == '<' {
        seq!['&', 'l', 't', ';']
    } else if c == '>' {
        seq!['&', 'g', 't', ';']
    } else {
        seq![c]
    }
}

/// `s` escaped character by character.
pub open spec fn escape(s: Seq<char>) -> Seq<char>
    decreases s.len(),
{
    if s.len() == 0 {
        Seq::empty()
    } else {
        escape(s.drop_last()) + escape_char(s.last())
    }
}

/// Minimal HTML escaping. Every client-supplied string goes through
/// here before it lands in markup.
pub fn escape_html(s: &str) -> (r: String)
    ensures
        r@ == escape(s@),
{
    let cs = chars_of(s);
    let mut out = String::new();
    let mut i: usize = 0;
    proof {
        reveal_strlit("&amp;");
        reveal_strlit("&lt;");
        reveal_strlit("&gt;");
    }
    while i < cs.len()
        invariant
            i <= cs@.len(),
            cs@ == s@,
            out@ == escape(cs@.take(i as int)),
            "&amp;"@ == seq!['&', 'a', 'm', 'p', ';'],
            "&lt;"@ == seq!['&', 'l', 't', ';'],
            "&gt;"@ == seq!['&', 'g', 't', ';'],
        decreases cs@.len() - i,
    {
        let c = cs[i];
        assert(cs@.take(i + 1).drop_last() =~= cs@.take(i as int));
        if c == '&' {
            out.append("&amp;");
        } else if c == '<' {
            out.append("&lt;");
        } else if c == '>' {
            out.append("&gt;");
        } else {
            push_char(&mut out, c);
        }
        assert(out@ =~= escape(cs@.take(i + 1)));
        i = i + 1;
    }
    assert(cs@.take(i as int) =~= cs@);
    out
}

/// One row of the daily trends table; `secs` is the average duration
/// as already written in seconds.
pub open spec fn daily_row_html(d: Daily, secs: Seq<char>) -> Seq<char> {
    "<tr><td>"@ + d.day@ + "</td><td>"@ + escape(d.kind@) + "</td><td class=n>"@
        + signed_decimal(d.runs as int) + "</td><td class=n>"@ + signed_decimal(d.failed as int)
        + "</td><td class=n>"@ + secs + "</td></tr>\n"@
}

/// One row of the recent-runs table; `secs` is the duration as
/// already written in seconds.
pub open spec fn recent_row_html(r: RunRow, secs: Seq<char>) -> Seq<char> {
    "<tr><td>"@ + r.received@ + "</td><td>"@ + escape(r.kind@) + "</td><td>"@ + escape(r.host@)
        + "</td><td class=n>"@ + secs + "</td><td>"@ + escape(r.detail@) + "</td></tr>\n"@
}

/// The first `n` rows of the daily table, in order.
pub open spec fn daily_table(ds: Seq<Daily>, secs: Seq<String>, n: int) -> Seq<char>
    decreases n,
{
    if n <= 0 {
        Seq::empty()
    } else {
        daily_table(ds, secs, n - 1) + daily_row_html(ds[n - 1], secs[n - 1]@)
    }
}

/// The first `n` rows of the recent-runs table, in order.
pub open spec fn recent_table(rs: Seq<RunRow>, secs: Seq<String>, n: int) -> Seq<char>
    decreases n,
{
    if n <= 0 {
        Seq::empty()
    } else {
        recent_table(rs, secs, n - 1) + recent_row_html(rs[n - 1], secs[n - 1]@)
    }
}

/// The shell's slot for the stylesheet, `{{style}}`.
pub open spec fn style_slot() -> Seq<char> {
    seq!['{', '{', 's', 't', 'y', 'l', 'e', '}', '}']
}

/// The shell's slot for the daily table, `{{daily}}`.
pub open spec fn daily_slot() -> Seq<char> {
    seq!['{', '{', 'd', 'a', 'i', 'l', 'y', '}', '}']
}

/// The shell's slot for the recent-runs table, `{{recent}}`.
pub open spec fn recent_slot() -> Seq<char> {
    seq!['{', '{', 'r', 'e', 'c', 'e', 'n', 't', '}', '}']
}

/// The page shell with its `{{style}}`, `{{daily}}` and `{{recent}}`
/// slots filled in one pass from the left: each slot of the shell is
/// replaced by its content, and inserted content is never scanned for
/// slots again, so text inside it stays text.
pub open spec fn fill_page(page: Seq<char>, style: Seq<char>, daily: Seq<char>, recent: Seq<char>) -> Seq<char>
    decreases page.len(),
{
    if page.len() == 0 {
        page
    } else if occurs_at(page, style_slot(), 0) {
        style + fill_page(page.skip(style_slot().len() as int), style, daily, recent)
    } else if occurs_at(page, daily_slot(), 0) {
        daily + fill_page(page.skip(daily_slot().len() as int), style, daily, recent)
    } else if occurs_at(page, recent_slot(), 0) {
        recent + fill_page(page.skip(recent_slot().len() as int), style, daily, recent)
    } else {
        seq![page[0]] + fill_page(page.skip(1), style, daily, recent)
    }
}

/// The whole page for `report`, from the shell and stylesheet.
pub open spec fn page_for(
    page: Seq<char>,
    style: Seq<char>,
    report: Report,
    daily_secs: Seq<String>,
    recent_secs: Seq<String>,
) -> Seq<char> {
    fill_page(
        page,
        style,
        daily_table(report.daily@, daily_secs, report.daily@.len() as int),
        recent_table(report.recent@, recent_secs, report.recent@.len() as int),
    )
}

fn daily_rows(ds: &Vec<Daily>, secs: &Vec<String>) -> (out: String)
    requires
        secs@.len() == ds@.len(),
    ensures
        out@ == daily_table(ds@, secs@, ds@.len() as int),
{
    let mut out = String::new();
    let mut i: usize = 0;
    while i < ds.len()
        invariant
            i <= ds@.len(),
            secs@.len() == ds@.len(),
            out@ == daily_table(ds@, secs@, i as int),
        decreases ds@.len() - i,
    {
        let d = &ds[i];
        let ghost before = out@;
        out.append("<tr><td>");
        out.append(d.day.as_str());
        out.append("</td><td>");
        let kind = escape_html(d.kind.as_str());
        out.append(kind.as_str());
        out.append("</td><td class=n>");
        push_signed_decimal(&mut out, d.runs);
        out.append("</td><td class=n>");
        push_signed_decimal(&mut out, d.failed);
        out.append("</td><td class=n>");
        out.append(secs[i].as_str());
        out.append("</td></tr>\n");
        assert(out@ =~= before + daily_row_html(ds@[i as int], secs@[i as int]@));
        i = i + 1;
    }
    out
}

fn recent_rows(rs: &Vec<RunRow>, secs: &Vec<String>) -> (out: String)
    requires
        secs@.len() == rs@.len(),
    ensures
        out@ == recent_table(rs@, secs@, rs@.len() as int),
{
    let mut out = String::new();
    let mut i: usize = 0;
    while i < rs.len()
        invariant
            i <= rs@.len(),
            secs@.len() == rs@.len(),
            out@ == recent_table(rs@, secs@, i as int),
        decreases rs@.len() - i,
    {
        let r = &rs[i];
        let ghost before = out@;
        out.append("<tr><td>");
        out.append(r.received.as_str());
        out.append("</td><td>");
        let kind = escape_html(r.kind.as_str());
        out.append(kind.as_str());
        out.append("</td><td>");
        let host = escape_html(r.host.as_str());
        out.append(host.as_str());
        out.append("</td><td class=n>");
        out.append(secs[i].as_str());
        out.append("</td><td>");
        let detail = escape_html(r.detail.as_str());
        out.append(detail.as_str());
        out.append("</td></tr>\n");
        assert(out@ =~= before + recent_row_html(rs@[i as int], secs@[i as int]@));
        i = i + 1;
    }
    out
}

/// The trends page for `report`: the shell `page` with `style`, the
/// daily table and the recent-runs table in its slots, filled in one
/// pass so that nothing inserted is taken for a slot. Client-supplied
/// kind, host and detail appear in the tables only escaped. The
/// durations come already written in seconds, one per row of each
/// table.
pub fn render(
    page: &str,
    style: &str,
    report: &Report,
    daily_secs: &Vec<String>,
    recent_secs: &Vec<String>,
) -> (html: String)
    requires
        daily_secs@.len() == report.daily@.len(),
        recent_secs@.len() == report.recent@.len(),
    ensures
        html@ == page_for(page@, style@, *report, daily_secs@, recent_secs@),
{
    let daily = daily_rows(&report.daily, daily_secs);
    let recent = recent_rows(&report.recent, recent_secs);
    fill_slots(page, style, daily.as_str(), recent.as_str())
}

/// The shell's slots filled with `style`, `daily` and `recent` in one
/// left-to-right pass.
fn fill_slots(page: &str, style: &str, daily: &str, recent: &str) -> (r: String)
    ensures
        r@ == fill_page(page@, style@, daily@, recent@),
{
    proof {
        reveal_strlit("{{style}}");
        reveal_strlit("{{daily}}");
        reveal_strlit("{{recent}}");
    }
    let sv = chars_of("{{style}}");
    let dv = chars_of("{{daily}}");
    let rv = chars_of("{{recent}}");
    assert(sv@ =~= style_slot());
    assert(dv@ =~= daily_slot());
    assert(rv@ =~= recent_slot());
    let pv = chars_of(page);
    let mut out = String::new();
    let mut i: usize = 0;
    assert(pv@.skip(0) =~= pv@);
    while i < pv.len()
        invariant
            i <= pv@.len(),
            pv@ == page@,
            sv@ == style_slot(),
            dv@ == daily_slot(),
            rv@ == recent_slot(),
            out@ + fill_page(pv@.skip(i as int), style@, daily@, recent@) == fill_page(
                pv@,
                style@,
                daily@,
                recent@,
            ),
        decreases pv@.len() - i,
    {
        let ghost rest = pv@.skip(i as int);
        let ghost before = out@;
        if matches_at(&pv, &sv, i) {
            assert(rest.subrange(0, 9) =~= pv@.subrange(i as int, i + 9));
            assert(rest.skip(9) =~= pv@.skip(i + 9));
            out.append(style);
            i = i + sv.len();
        } else if matches_at(&pv, &dv, i) {
            assert(rest.subrange(0, 9) =~= pv@.subrange(i as int, i + 9));
            assert(!occurs_at(rest, style_slot(), 0)) by {
                if occurs_at(rest, style_slot(), 0) {
                    assert(rest.subrange(0, 9)[2] == 's');
                }
            }
            assert(rest.skip(9) =~= pv@.skip(i + 9));
            out.append(daily);
            i = i + dv.len();
        } else if matches_at(&pv, &rv, i) {
            assert(rest.subrange(0, 10) =~= pv@.subrange(i as int, i + 10));
            assert(!occurs_at(rest, style_slot(), 0)) by {
                if occurs_at(rest, style_slot(), 0) {
                    assert(rest.subrange(0, 9)[2] == 's');
                    assert(rest.subrange(0, 10)[2] == 'r');
                }
            }
            assert(!occurs_at(rest, daily_slot(), 0)) by {
                if occurs_at(rest, daily_slot(), 0) {
                    assert(rest.subrange(0, 9)[2] == 'd');
                    assert(rest.subrange(0, 10)[2] == 'r');
                }
            }
            assert(rest.skip(10) =~= pv@.skip(i + 10));
            out.append(recent);
            i = i + rv.len();
        } else {
            assert(!occurs_at(rest, style_slot(), 0)) by {
                if occurs_at(rest, style_slot(), 0) {
                    assert(rest.subrange(0, 9) =~= pv@.subrange(i as int, i + 9));
                }
            }
            assert(!occurs_at(rest, daily_slot(), 0)) by {
                if occurs_at(rest, daily_slot(), 0) {
                    assert(rest.subrange(0, 9) =~= pv@.subrange(i as int, i + 9));
                }
            }
            assert(!occurs_at(rest, recent_slot(), 0)) by {
                if occurs_at(rest, recent_slot(), 0) {
                    assert(rest.subrange(0, 10) =~= pv@.subrange(i as int, i + 10));
                }
            }
            assert(rest.skip(1) =~= pv@.skip(i + 1));
            push_char(&mut out, pv[i]);
            assert(out@ + fill_page(pv@.skip(i + 1), style@, daily@, recent@) =~= before + fill_page(
                rest,
                style@,
                daily@,
                recent@,
            ));
            i = i + 1;
        }
    }
    assert(pv@.skip(i as int) =~= Seq::<char>::empty());
    assert(out@ =~= fill_page(pv@, style@, daily@, recent@));
    out
}

/// Every occurrence of the character `c` in `s` replaced by `r`.
pub open spec fn subst(s: Seq<char>, c: char, r: Seq<char>) -> Seq<char>
    decreases s.len(),
{
    if s.len() == 0 {
        Seq::empty()
    } else {
        (if s[0] == c {
            r
        } else {
            seq![s[0]]
        }) + subst(s.skip(1), c, r)
    }
}

proof fn lemma_replace_one_char(s: Seq<char>, c: char, r: Seq<char>)
    ensures
        replace_all(s, seq![c], r) == subst(s, c, r),
    decreases s.len(),
{
    if s.len() > 0 {
        lemma_replace_one_char(s.skip(1), c, r);
        if s[0] == c {
            assert(s.subrange(0, 1) =~= seq![c]);
        } else {
            assert(s.subrange(0, 1)[0] != seq![c][0]);
        }
    }
}

proof fn lemma_subst_concat(a: Seq<char>, b: Seq<char>, c: char, r: Seq<char>)
    ensures
        subst(a + b, c, r) == subst(a, c, r) + subst(b, c, r),
    decreases a.len(),
{
    if a.len() == 0 {
        assert(a + b =~= b);
    } else {
        lemma_subst_concat(a.skip(1), b, c, r);
        assert((a + b).skip(1) =~= a.skip(1) + b);
        assert((a + b)[0] == a[0]);
    }
}

proof fn lemma_subst_absent(s: Seq<char>, c: char, r: Seq<char>)
    requires
        !s.contains(c),
    ensures
        subst(s, c, r) == s,
    decreases s.len(),
{
    if s.len() > 0 {
        assert(s[0] != c);
        assert forall|i: int| 0 <= i < s.skip(1).len() implies s.skip(1)[i] != c by {
            assert(s.skip(1)[i] == s[i + 1]);
        }
        lemma_subst_absent(s.skip(1), c, r);
        assert(seq![s[0]] + s.skip(1) =~= s);
    }
}

proof fn lemma_escape_concat(a: Seq<char>, b: Seq<char>)
    ensures
        escape(a + b) == escape(a) + escape(b),
    decreases b.len(),
{
    if b.len() == 0 {
        assert(a + b =~= a);
        assert(escape(a) + escape(b) =~= escape(a));
    } else {
        lemma_escape_concat(a, b.drop_last());
        assert((a + b).drop_last() =~= a + b.drop_last());
        assert((a + b).last() == b.last());
        assert(escape(a + b) =~= escape(a) + escape(b));
    }
}

proof fn lemma_escape_front(s: Seq<char>)
    requires
        s.len() > 0,
    ensures
        escape(s) == escape_char(s[0]) + escape(s.skip(1)),
{
    lemma_escape_concat(seq![s[0]], s.skip(1));
    assert(seq![s[0]] + s.skip(1) =~= s);
    assert(seq![s[0]].drop_last() =~= Seq::<char>::empty());
    assert(escape(Seq::<char>::empty()) == Seq::<char>::empty());
    assert(escape(seq![s[0]]) =~= escape_char(s[0]));
}

/// The three replacements of `&`, `<` and `>` by their entities,
/// applied one after the other in that order.
pub open spec fn sequential_escape(s: Seq<char>) -> Seq<char> {
    replace_all(
        replace_all(replace_all(s, seq!['&'], seq!['&', 'a', 'm', 'p', ';']), seq!['<'], seq!['&', 'l', 't', ';']),
        seq!['>'],
        seq!['&', 'g', 't', ';'],
    )
}

proof fn lemma_subst_single(c: char, d: char, r: Seq<char>)
    ensures
        subst(seq![c], d, r) == (if c == d {
            r
        } else {
            seq![c]
        }),
{
    assert(seq![c].skip(1) =~= Seq::<char>::empty());
    assert(subst(Seq::<char>::empty(), d, r) == Seq::<char>::empty());
    assert(subst(seq![c], d, r) =~= (if c == d {
        r
    } else {
        seq![c]
    }));
}

proof fn lemma_three_substs(s: Seq<char>)
    ensures
        subst(
            subst(subst(s, '&', seq!['&', 'a', 'm', 'p', ';']), '<', seq!['&', 'l', 't', ';']),
            '>',
            seq!['&', 'g', 't', ';'],
        ) == escape(s),
    decreases s.len(),
{
    let amp = seq!['&', 'a', 'm', 'p', ';'];
    let lt = seq!['&', 'l', 't', ';'];
    let gt = seq!['&', 'g', 't', ';'];
    if s.len() == 0 {
        assert(subst(s, '&', amp) =~= Seq::<char>::empty());
    } else {
        let c = s[0];
        let rest = s.skip(1);
        lemma_three_substs(rest);
        lemma_escape_front(s);
        let first = if c == '&' { amp } else { seq![c] };
        let t1 = subst(rest, '&', amp);
        assert(subst(s, '&', amp) == first + t1);
        lemma_subst_concat(first, t1, '<', lt);
        let second = subst(first, '<', lt);
        let t2 = subst(t1, '<', lt);
        lemma_subst_concat(second, t2, '>', gt);
        if c == '&' {
            assert(!amp.contains('<')) by {
                assert forall|i: int| 0 <= i < amp.len() implies amp[i] != '<' by {}
            }
            assert(!amp.contains('>')) by {
                assert forall|i: int| 0 <= i < amp.len() implies amp[i] != '>' by {}
            }
            lemma_subst_absent(amp, '<', lt);
            lemma_subst_absent(amp, '>', gt);
        } else if c == '<' {
            lemma_subst_single(c, '<', lt);
            assert(!lt.contains('>')) by {
                assert forall|i: int| 0 <= i < lt.len() implies lt[i] != '>' by {}
            }
            lemma_subst_absent(lt, '>', gt);
        } else if c == '>' {
            lemma_subst_single(c, '<', lt);
            lemma_subst_single(c, '>', gt);
        } else {
            lemma_subst_single(c, '<', lt);
            lemma_subst_single(c, '>', gt);
        }
    }
}

/// Law: escaping character by character is the same as replacing
/// `&`, then `<`, then `>` by their entities across the whole text.
pub proof fn law_escape_is_sequential_replace(s: Seq<char>)
    ensures
        escape(s) == sequential_escape(s),
{
    let amp = seq!['&', 'a', 'm', 'p', ';'];
    let lt = seq!['&', 'l', 't', ';'];
    let gt = seq!['&', 'g', 't', ';'];
    lemma_replace_one_char(s, '&', amp);
    let t1 = subst(s, '&', amp);
    lemma_replace_one_char(t1, '<', lt);
    let t2 = subst(t1, '<', lt);
    lemma_replace_one_char(t2, '>', gt);
    lemma_three_substs(s);
}

/// Law: escaped text holds no `<` and no `>`, so client text cannot
/// open or close a tag.
pub proof fn law_escaped_has_no_angle_brackets(s: Seq<char>)
    ensures
        !escape(s).contains('<'),
        !escape(s).contains('>'),
    decreases s.len(),
{
    if s.len() > 0 {
        law_escaped_has_no_angle_brackets(s.drop_last());
        let a = escape(s.drop_last());
        let b = escape_char(s.last());
        assert(!b.contains('<') && !b.contains('>')) by {
            assert forall|i: int| 0 <= i < b.len() implies b[i] != '<' && b[i] != '>' by {}
        }
        assert forall|i: int| 0 <= i < (a + b).len() implies (a + b)[i] != '<' && (a + b)[i] != '>' by {
            if i < a.len() {
                assert((a + b)[i] == a[i]);
            } else {
                assert((a + b)[i] == b[i - a.len()]);
            }
        }
    }
}

/// Law: text with no `&`, `<` or `>` is left as it is.
pub proof fn law_plain_text_unchanged(s: Seq<char>)
    requires
        !s.contains('&'),
        !s.contains('<'),
        !s.contains('>'),
    ensures
        escape(s) == s,
    decreases s.len(),
{
    if s.len() > 0 {
        let p = s.drop_last();
        assert forall|i: int| 0 <= i < p.len() implies p[i] != '&' && p[i] != '<' && p[i] != '>' by {
            assert(p[i] == s[i]);
        }
        law_plain_text_unchanged(p);
        assert(s.last() == s[s.len() - 1]);
        assert(escape(s) =~= s);
    }
}

/// Law: a shell with none of the three slots comes back as it is,
/// whatever the report.
pub proof fn law_shell_without_slots_unchanged(
    page: Seq<char>,
    style: Seq<char>,
    daily: Seq<char>,
    recent: Seq<char>,
)
    requires
        !has_infix(page, style_slot()),
        !has_infix(page, daily_slot()),
        !has_infix(page, recent_slot()),
    ensures
        fill_page(page, style, daily, recent) == page,
    decreases page.len(),
{
    if page.len() > 0 {
        assert(!occurs_at(page, style_slot(), 0));
        assert(!occurs_at(page, daily_slot(), 0));
        assert(!occurs_at(page, recent_slot(), 0));
        let rest = page.skip(1);
        assert forall|slot: Seq<char>, i: int|
            #![trigger occurs_at(rest, slot, i)]
            occurs_at(rest, slot, i) implies occurs_at(page, slot, i + 1) by {
            assert(page.subrange(i + 1, i + 1 + slot.len()) =~= rest.subrange(i, i + slot.len()));
        }
        law_shell_without_slots_unchanged(rest, style, daily, recent);
        assert(seq![page[0]] + rest =~= page);
    }
}

/// Law: what goes into a slot is never scanned for slots again. For
/// the shell `{{daily}}{{recent}}` the page is the daily table followed
/// by the recent table, whatever either holds, slot markers included.
pub proof fn law_slot_contents_verbatim(style: Seq<char>, daily: Seq<char>, recent: Seq<char>)
    ensures
        fill_page(daily_slot() + recent_slot(), style, daily, recent) == daily + recent,
{
    let shell = daily_slot() + recent_slot();
    assert(shell.subrange(0, 9) =~= daily_slot());
    assert(!occurs_at(shell, style_slot(), 0)) by {
        assert(shell.subrange(0, 9)[2] != style_slot()[2]);
    }
    let rest = shell.skip(9);
    assert(rest =~= recent_slot());
    assert(rest.subrange(0, 10) =~= recent_slot());
    assert(!occurs_at(rest, style_slot(), 0)) by {
        assert(rest.subrange(0, 9)[2] != style_slot()[2]);
    }
    assert(!occurs_at(rest, daily_slot(), 0)) by {
        assert(rest.subrange(0, 9)[2] != daily_slot()[2]);
    }
    let empty = rest.skip(10);
    assert(empty =~= Seq::<char>::empty());
    assert(fill_page(empty, style, daily, recent) == empty);
    assert(fill_page(rest, style, daily, recent) =~= recent);
    assert(fill_page(shell, style, daily, recent) =~= daily + recent);
}

/// Law: escaping works piece by piece: the escape of two texts put
/// together is the two escapes put together.
pub proof fn law_escape_concat(a: Seq<char>, b: Seq<char>)
    ensures
        escape(a + b) == escape(a) + escape(b),
{
    lemma_escape_concat(a, b);
}

/// Law: what each single character becomes: `&`, `<`, `>` their
/// entities, any other character itself; the empty text stays empty.
pub proof fn law_escape_each_char(c: char)
    ensures
        escape(Seq::<char>::empty()) == Seq::<char>::empty(),
        c == '&' ==> escape(seq![c]) == seq!['&', 'a', 'm', 'p', ';'],
        c == '<' ==> escape(seq![c]) == seq!['&', 'l', 't', ';'],
        c == '>' ==> escape(seq![c]) == seq!['&', 'g', 't', ';'],
        c != '&' && c != '<' && c != '>' ==> escape(seq![c]) == seq![c],
{
    assert(seq![c].drop_last() =~= Seq::<char>::empty());
    assert(escape(Seq::<char>::empty()) == Seq::<char>::empty());
    assert(escape(seq![c]) =~= escape_char(c));
}

/// Law: the daily table has one row per entry, in order, and row `n`
/// is written from entry `n` and duration text `n` alone: the table of
/// the first `n + 1` entries is the table of the first `n` followed by
/// `<tr><td>day</td><td>kind</td><td class=n>runs</td><td class=n>failed</td><td class=n>secs</td></tr>`
/// for entry `n`, with the kind escaped. No entries, no rows.
pub proof fn law_daily_table_row_by_row(ds: Seq<Daily>, secs: Seq<String>, n: int)
    requires
        0 <= n,
    ensures
        daily_table(ds, secs, 0) == Seq::<char>::empty(),
        daily_table(ds, secs, n + 1) == daily_table(ds, secs, n) + (
        "<tr><td>"@ + ds[n].day@ + "</td><td>"@ + escape(ds[n].kind@) + "</td><td class=n>"@
            + signed_decimal(ds[n].runs as int) + "</td><td class=n>"@ + signed_decimal(
            ds[n].failed as int,
        ) + "</td><td class=n>"@ + secs[n]@ + "</td></tr>\n"@),
{
}

/// Law: the recent-runs table has one row per run, in order, and row
/// `n` is written from run `n` and duration text `n` alone: the table
/// of the first `n + 1` runs is the table of the first `n` followed by
/// `<tr><td>received</td><td>kind</td><td>host</td><td class=n>secs</td><td>detail</td></tr>`
/// for run `n`, with kind, host and detail escaped. No runs, no rows.
pub proof fn law_recent_table_row_by_row(rs: Seq<RunRow>, secs: Seq<String>, n: int)
    requires
        0 <= n,
    ensures
        recent_table(rs, secs, 0) == Seq::<char>::empty(),
        recent_table(rs, secs, n + 1) == recent_table(rs, secs, n) + (
        "<tr><td>"@ + rs[n].received@ + "</td><td>"@ + escape(rs[n].kind@) + "</td><td>"@
            + escape(rs[n].host@) + "</td><td class=n>"@ + secs[n]@ + "</td><td>"@ + escape(
            rs[n].detail@,
        ) + "</td></tr>\n"@),
{
}

/// Law: row `i` of the daily table sits right after the rows before
/// it, whatever follows: for `i < n` the table of `n` entries starts
/// with the table of `i` entries and then row `i`.
pub proof fn law_daily_row_in_place(ds: Seq<Daily>, secs: Seq<String>, i: int, n: int)
    requires
        0 <= i < n,
    ensures
        daily_table(ds, secs, i + 1).len() <= daily_table(ds, secs, n).len(),
        daily_table(ds, secs, n).subrange(0, daily_table(ds, secs, i + 1).len() as int)
            == daily_table(ds, secs, i) + daily_row_html(ds[i], secs[i]@),
    decreases n,
{
    if n > i + 1 {
        law_daily_row_in_place(ds, secs, i, n - 1);
        let t = daily_table(ds, secs, n - 1);
        let k = daily_table(ds, secs, i + 1).len() as int;
        assert(daily_table(ds, secs, n).subrange(0, k) =~= t.subrange(0, k));
    } else {
        assert(daily_table(ds, secs, n).subrange(0, daily_table(ds, secs, n).len() as int)
            =~= daily_table(ds, secs, n));
    }
}

/// Law: row `i` of the recent-runs table sits right after the rows
/// before it, whatever follows: for `i < n` the table of `n` runs
/// starts with the table of `i` runs and then row `i`.
pub proof fn law_recent_row_in_place(rs: Seq<RunRow>, secs: Seq<String>, i: int, n: int)
    requires
        0 <= i < n,
    ensures
        recent_table(rs, secs, i + 1).len() <= recent_table(rs, secs, n).len(),
        recent_table(rs, secs, n).subrange(0, recent_table(rs, secs, i + 1).len() as int)
            == recent_table(rs, secs, i) + recent_row_html(rs[i], secs[i]@),
    decreases n,
{
    if n > i + 1 {
        law_recent_row_in_place(rs, secs, i, n - 1);
        let t = recent_table(rs, secs, n - 1);
        let k = recent_table(rs, secs, i + 1).len() as int;
        assert(recent_table(rs, secs, n).subrange(0, k) =~= t.subrange(0, k));
    } else {
        assert(recent_table(rs, secs, n).subrange(0, recent_table(rs, secs, n).len() as int)
            =~= recent_table(rs, secs, n));
    }
}

/// Law: how the shell is filled, position by position from the left:
/// an empty shell stays empty; a `{{style}}`, `{{daily}}` or
/// `{{recent}}` at the front becomes the stylesheet, the daily table or
/// the recent table, followed by the rest of the shell filled; any
/// other character is kept, followed by the rest filled.
pub proof fn law_fill_page_from_the_left(
    page: Seq<char>,
    style: Seq<char>,
    daily: Seq<char>,
    recent: Seq<char>,
)
    ensures
        fill_page(Seq::<char>::empty(), style, daily, recent) == Seq::<char>::empty(),
        fill_page(seq!['{', '{', 's', 't', 'y', 'l', 'e', '}', '}'] + page, style, daily, recent)
            == style + fill_page(page, style, daily, recent),
        fill_page(seq!['{', '{', 'd', 'a', 'i', 'l', 'y', '}', '}'] + page, style, daily, recent)
            == daily + fill_page(page, style, daily, recent),
        fill_page(seq!['{', '{', 'r', 'e', 'c', 'e', 'n', 't', '}', '}'] + page, style, daily, recent)
            == recent + fill_page(page, style, daily, recent),
        page.len() > 0 && !occurs_at(page, seq!['{', '{', 's', 't', 'y', 'l', 'e', '}', '}'], 0)
            && !occurs_at(page, seq!['{', '{', 'd', 'a', 'i', 'l', 'y', '}', '}'], 0)
            && !occurs_at(page, seq!['{', '{', 'r', 'e', 'c', 'e', 'n', 't', '}', '}'], 0)
            ==> fill_page(page, style, daily, recent) == seq![page[0]] + fill_page(
            page.skip(1),
            style,
            daily,
            recent,
        ),
{
    let ss = style_slot() + page;
    assert(ss.subrange(0, 9) =~= style_slot());
    assert(ss.skip(9) =~= page);
    let ds = daily_slot() + page;
    assert(ds.subrange(0, 9) =~= daily_slot());
    assert(ds.skip(9) =~= page);
    assert(!occurs_at(ds, style_slot(), 0)) by {
        assert(ds.subrange(0, 9)[2] != style_slot()[2]);
    }
    let rs = recent_slot() + page;
    assert(rs.subrange(0, 10) =~= recent_slot());
    assert(rs.skip(10) =~= page);
    assert(!occurs_at(rs, style_slot(), 0)) by {
        assert(rs.subrange(0, 9)[2] != style_slot()[2]);
    }
    assert(!occurs_at(rs, daily_slot(), 0)) by {
        assert(rs.subrange(0, 9)[2] != daily_slot()[2]);
    }
    assert(style_slot() == seq!['{', '{', 's', 't', 'y', 'l', 'e', '}', '}']);
    assert(daily_slot() == seq!['{', '{', 'd', 'a', 'i', 'l', 'y', '}', '}']);
    assert(recent_slot() == seq!['{', '{', 'r', 'e', 'c', 'e', 'n', 't', '}', '}']);
}

/// Law: the rendered page holds every entry: for the shell
/// `{{daily}}{{recent}}` the page is the daily table over all of
/// `report.daily` followed by the recent table over all of
/// `report.recent`, whatever the stylesheet.
pub proof fn law_page_holds_every_row(
    style: Seq<char>,
    report: Report,
    daily_secs: Seq<String>,
    recent_secs: Seq<String>,
)
    ensures
        page_for(
            seq!['{', '{', 'd', 'a', 'i', 'l', 'y', '}', '}', '{', '{', 'r', 'e', 'c', 'e', 'n', 't', '}', '}'],
            style,
            report,
            daily_secs,
            recent_secs,
        ) == daily_table(report.daily@, daily_secs, report.daily@.len() as int) + recent_table(
            report.recent@,
            recent_secs,
            report.recent@.len() as int,
        ),
{
    let d = daily_table(report.daily@, daily_secs, report.daily@.len() as int);
    let r = recent_table(report.recent@, recent_secs, report.recent@.len() as int);
    law_slot_contents_verbatim(style, d, r);
    assert(daily_slot() + recent_slot() =~= seq![
        '{', '{', 'd', 'a', 'i', 'l', 'y', '}', '}', '{', '{', 'r', 'e', 'c', 'e', 'n', 't', '}', '}'
    ]);
}

} // verus!

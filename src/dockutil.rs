//! Parsing of the tab-separated listing that `dockutil --list` prints.
use crate::decode::{percent_decode, percent_decoded};
use crate::store::{entries_view, AppEntry, AppEntryView};
use crate::text::{
    chars_of, ends_with, ends_with_chars, lemma_split_from_nonempty, pieces_view, split_chars,
    split_from, split_on, starts_with, starts_with_at, string_of, sub_chars, trim, trim_chars,
};
use vstd::prelude::*;

verus! {

pub open spec fn file_scheme() -> Seq<char> {
    seq!['f', 'i', 'l', 'e', ':', '/', '/']
}

pub open spec fn app_suffix() -> Seq<char> {
    seq!['.', 'a', 'p', 'p']
}

pub open spec fn app_dir_suffix() -> Seq<char> {
    seq!['.', 'a', 'p', 'p', '/']
}

/// `s` with every leading `file://` removed.
pub open spec fn strip_scheme(s: Seq<char>) -> Seq<char>
    decreases s.len(),
{
    if s.len() >= 7 && starts_with(s, file_scheme()) {
        strip_scheme(s.skip(7))
    } else {
        s
    }
}

/// `s` with every trailing `/` removed.
pub open spec fn strip_slashes(s: Seq<char>) -> Seq<char>
    decreases s.len(),
{
    if s.len() > 0 && s.last() == '/' {
        strip_slashes(s.drop_last())
    } else {
        s
    }
}

/// `l` without one final carriage return.
pub open spec fn strip_cr(l: Seq<char>) -> Seq<char> {
    if l.len() > 0 && l.last() == '\r' {
        l.drop_last()
    } else {
        l
    }
}

/// The lines of `s`: split at `\n`, a `\r` before the `\n` removed, and no
/// final empty line after a closing `\n`.
pub open spec fn lines_of(s: Seq<char>) -> Seq<Seq<char>> {
    let p = split_on(s, '\n');
    let kept = if p.last().len() == 0 {
        p.drop_last()
    } else {
        p
    };
    Seq::new(kept.len(), |k: int| if k < p.len() - 1 { strip_cr(kept[k]) } else { kept[k] })
}

/// Whether a decoded path names an application bundle.
pub open spec fn is_app_path(p: Seq<char>) -> bool {
    ends_with(p, app_dir_suffix()) || ends_with(p, app_suffix())
}

/// The entry that the fields of one line describe, if any.
pub open spec fn entry_of_fields(f: Seq<Seq<char>>) -> Option<AppEntryView> {
    if f.len() >= 2 {
        let path = percent_decoded(strip_scheme(f[1]));
        if is_app_path(path) {
            Some(
                AppEntryView {
                    name: trim(f[0]),
                    path: strip_slashes(path),
                    icon: None,
                    bundle_id: if f.len() >= 5 {
                        Some(f[4])
                    } else {
                        None
                    },
                },
            )
        } else {
            None
        }
    } else {
        None
    }
}

/// The entry that one line describes, if any.
pub open spec fn entry_of_line(l: Seq<char>) -> Option<AppEntryView> {
    entry_of_fields(split_on(l, '\t'))
}

/// The entries of the lines `ls`, in their order.
pub open spec fn entries_of_lines(ls: Seq<Seq<char>>) -> Seq<AppEntryView>
    decreases ls.len(),
{
    if ls.len() == 0 {
        seq![]
    } else {
        let rest = entries_of_lines(ls.drop_last());
        match entry_of_line(ls.last()) {
            Some(e) => rest.push(e),
            None => rest,
        }
    }
}

/// The entries that a `dockutil --list` listing describes.
pub open spec fn parse_listing(s: Seq<char>) -> Seq<AppEntryView> {
    entries_of_lines(lines_of(s))
}

fn strip_scheme_chars(s: &Vec<char>) -> (r: Vec<char>)
    ensures
        r@ == strip_scheme(s@),
{
    let scheme = vec!['f', 'i', 'l', 'e', ':', '/', '/'];
    assert(scheme@ =~= file_scheme());
    let mut at: usize = 0;
    assert(s@.skip(0) =~= s@);
    while s.len() - at >= 7 && starts_with_at(s, at, &scheme)
        invariant
            at <= s@.len(),
            scheme@ == file_scheme(),
            strip_scheme(s@.skip(at as int)) == strip_scheme(s@),
        decreases s@.len() - at,
    {
        assert(s@.skip(at as int).skip(7) =~= s@.skip(at + 7));
        at = at + 7;
    }
    sub_chars(s, at, s.len())
}

fn strip_slashes_chars(s: &Vec<char>) -> (r: Vec<char>)
    ensures
        r@ == strip_slashes(s@),
{
    let mut hi: usize = s.len();
    assert(s@.take(hi as int) =~= s@);
    while hi > 0 && s[hi - 1] == '/'
        invariant
            hi <= s@.len(),
            strip_slashes(s@.take(hi as int)) == strip_slashes(s@),
        decreases hi,
    {
        assert(s@.take(hi as int).drop_last() =~= s@.take(hi - 1));
        hi = hi - 1;
    }
    sub_chars(s, 0, hi)
}

fn entry_from_fields(f: &Vec<Vec<char>>) -> (r: Option<AppEntry>)
    ensures
        match r {
            Some(e) => entry_of_fields(pieces_view(f@)) == Some(e@),
            None => entry_of_fields(pieces_view(f@)) is None,
        },
{
    let ghost fv = pieces_view(f@);
    if f.len() < 2 {
        return None;
    }
    assert(fv[1] == f@[1]@);
    let raw = string_of(&strip_scheme_chars(&f[1]));
    let decoded = percent_decode(raw.as_str());
    let path_chars = chars_of(decoded.as_str());
    let app_dir = vec!['.', 'a', 'p', 'p', '/'];
    let app = vec!['.', 'a', 'p', 'p'];
    assert(app_dir@ =~= app_dir_suffix());
    assert(app@ =~= app_suffix());
    if !(ends_with_chars(&path_chars, &app_dir) || ends_with_chars(&path_chars, &app)) {
        return None;
    }
    assert(fv[0] == f@[0]@);
    let name = string_of(&trim_chars(&f[0]));
    let path = string_of(&strip_slashes_chars(&path_chars));
    let bundle_id = if f.len() >= 5 {
        assert(fv[4] == f@[4]@);
        Some(string_of(&f[4]))
    } else {
        None
    };
    let e = AppEntry { name, path, icon: None, bundle_id };
    assert(entry_of_fields(fv) == Some(e@));
    Some(e)
}

/// Parses the output of `dockutil --list`: one entry per line that has at
/// least a name and a URL field and whose URL names an application bundle,
/// in the order of the lines. Other lines are skipped.
pub fn parse_dockutil_output(output: &str) -> (r: Vec<AppEntry>)
    ensures
        entries_view(r@) == parse_listing(output@),
{
    let chars = chars_of(output);
    let pieces = split_chars(&chars, '\n');
    let ghost p = split_on(output@, '\n');
    proof {
        lemma_split_from_nonempty(output@, '\n', seq![]);
    }
    let n = pieces.len();
    assert(pieces_view(pieces@)[n - 1] == pieces@[n - 1]@);
    let count: usize = if pieces[n - 1].len() == 0 {
        n - 1
    } else {
        n
    };
    let ghost ls = lines_of(output@);
    assert(ls.len() == count);
    let mut apps: Vec<AppEntry> = Vec::new();
    let mut k: usize = 0;
    while k < count
        invariant
            n == pieces@.len(),
            p == pieces_view(pieces@),
            p == split_on(output@, '\n'),
            p.len() == n,
            count <= n,
            n >= 1,
            count as int == (if p.last().len() == 0 { n - 1 } else { n as int }),
            ls == lines_of(output@),
            ls.len() == count,
            k <= count,
            entries_view(apps@) == entries_of_lines(ls.take(k as int)),
        decreases count - k,
    {
        let piece = &pieces[k];
        assert(p[k as int] == piece@);
        let end: usize = if k + 1 < n && piece.len() > 0 && piece[piece.len() - 1] == '\r' {
            piece.len() - 1
        } else {
            piece.len()
        };
        let line = sub_chars(piece, 0, end);
        assert(line@ == ls[k as int]) by {
            let kept = if p.last().len() == 0 {
                p.drop_last()
            } else {
                p
            };
            assert(kept.len() == count);
            assert(kept[k as int] == p[k as int]);
            assert(ls[k as int] == (if k < p.len() - 1 {
                strip_cr(kept[k as int])
            } else {
                kept[k as int]
            }));
            if k + 1 < n && piece@.len() > 0 && piece@.last() == '\r' {
                assert(piece@.subrange(0, end as int) =~= piece@.drop_last());
                assert(ls[k as int] == strip_cr(piece@));
            } else {
                assert(piece@.subrange(0, end as int) =~= piece@);
                assert(ls[k as int] == piece@);
            }
        }
        let fields = split_chars(&line, '\t');
        let ghost before = apps@;
        assert(ls.take(k + 1).drop_last() =~= ls.take(k as int));
        match entry_from_fields(&fields) {
            Some(e) => {
                apps.push(e);
                assert(entries_view(apps@) =~= entries_view(before).push(e@));
            },
            None => {},
        }
        k = k + 1;
    }
    assert(ls.take(count as int) =~= ls);
    apps
}

proof fn lemma_entries_of_lines_concat(a: Seq<Seq<char>>, b: Seq<Seq<char>>)
    ensures
        entries_of_lines(a + b) == entries_of_lines(a) + entries_of_lines(b),
    decreases b.len(),
{
    if b.len() == 0 {
        assert(a + b =~= a);
        assert(entries_of_lines(a) + Seq::<AppEntryView>::empty() =~= entries_of_lines(a));
    } else {
        assert((a + b).drop_last() =~= a + b.drop_last());
        assert((a + b).last() == b.last());
        lemma_entries_of_lines_concat(a, b.drop_last());
        match entry_of_line(b.last()) {
            Some(e) => {
                assert(entries_of_lines(a) + entries_of_lines(b.drop_last()).push(e) =~= (
                entries_of_lines(a) + entries_of_lines(b.drop_last())).push(e));
            },
            None => {},
        }
    }
}

/// A line with fewer than two fields, or whose URL does not name an
/// application bundle, yields no entry, and the lines around it are parsed as
/// if it were not there.
pub proof fn lemma_skipped_line_is_dropped(
    before: Seq<Seq<char>>,
    line: Seq<char>,
    after: Seq<Seq<char>>,
)
    requires
        split_on(line, '\t').len() < 2 || !is_app_path(
            percent_decoded(strip_scheme(split_on(line, '\t')[1])),
        ),
    ensures
        entry_of_line(line) is None,
        entries_of_lines(before + seq![line] + after) == entries_of_lines(before)
            + entries_of_lines(after),
{
    lemma_entries_of_lines_concat(before + seq![line], after);
    lemma_entries_of_lines_concat(before, seq![line]);
    assert(entry_of_line(line) is None);
    assert(seq![line].drop_last() =~= Seq::<Seq<char>>::empty());
    assert(entries_of_lines(Seq::<Seq<char>>::empty()) == Seq::<AppEntryView>::empty());
    assert(entries_of_lines(seq![line]) =~= Seq::<AppEntryView>::empty());
    assert(entries_of_lines(before) + Seq::<AppEntryView>::empty() =~= entries_of_lines(before));
}

proof fn lemma_split_without_separator(s: Seq<char>, sep: char, cur: Seq<char>)
    requires
        !s.contains(sep),
    ensures
        split_from(s, sep, cur) == seq![cur + s],
    decreases s.len(),
{
    if s.len() == 0 {
        assert(cur + s =~= cur);
    } else {
        assert(s[0] != sep) by {
            assert(s.contains(s[0]));
        }
        assert(!s.drop_first().contains(sep)) by {
            if s.drop_first().contains(sep) {
                let k = choose|k: int| 0 <= k < s.drop_first().len() && s.drop_first()[k] == sep;
                assert(s[k + 1] == sep);
            }
        }
        lemma_split_without_separator(s.drop_first(), sep, cur.push(s[0]));
        assert(cur.push(s[0]) + s.drop_first() =~= cur + s);
    }
}

proof fn lemma_split_has_separator(s: Seq<char>, sep: char, cur: Seq<char>)
    requires
        split_from(s, sep, cur).len() >= 2,
    ensures
        s.contains(sep),
{
    if !s.contains(sep) {
        lemma_split_without_separator(s, sep, cur);
    }
}

proof fn lemma_strip_scheme_done(s: Seq<char>)
    ensures
        !starts_with(strip_scheme(s), file_scheme()),
    decreases s.len(),
{
    if s.len() >= 7 && starts_with(s, file_scheme()) {
        lemma_strip_scheme_done(s.skip(7));
    }
}

proof fn lemma_strip_slashes_of_app_path(p: Seq<char>)
    requires
        is_app_path(p),
    ensures
        ends_with(strip_slashes(p), app_suffix()),
{
    if ends_with(p, app_suffix()) {
        assert(p.last() == p.skip(p.len() - 4)[3]);
        assert(strip_slashes(p) == p);
    } else {
        let q = p.drop_last();
        assert(p.last() == p.skip(p.len() - 5)[4]);
        assert(q.skip(q.len() - 4) =~= p.skip(p.len() - 5).take(4));
        assert(q.skip(q.len() - 4) =~= app_suffix());
        assert(q.last() == q.skip(q.len() - 4)[3]);
        assert(strip_slashes(q) == q);
        assert(strip_slashes(p) == strip_slashes(q));
    }
}

/// A single line with at least a name and a URL field, whose URL names an
/// application bundle, yields exactly one entry. Its path is the URL without
/// its `file://` scheme, percent-decoded, without trailing slashes: it still
/// ends in `.app`, and where it holds no `%`, decoding it again changes nothing.
pub proof fn lemma_app_line_yields_one_entry(line: Seq<char>)
    requires
        !line.contains('\n'),
        split_on(line, '\t').len() >= 2,
        is_app_path(percent_decoded(strip_scheme(split_on(line, '\t')[1]))),
    ensures
        parse_listing(line).len() == 1,
        parse_listing(line)[0].path == strip_slashes(
            percent_decoded(strip_scheme(split_on(line, '\t')[1])),
        ),
        !starts_with(strip_scheme(split_on(line, '\t')[1]), file_scheme()),
        ends_with(parse_listing(line)[0].path, app_suffix()),
        parse_listing(line)[0].path.last() != '/',
        !parse_listing(line)[0].path.contains('%') ==> percent_decoded(parse_listing(line)[0].path)
            == parse_listing(line)[0].path,
        parse_listing(line)[0].name == trim(split_on(line, '\t')[0]),
        parse_listing(line)[0].bundle_id == (if split_on(line, '\t').len() >= 5 {
            Some(split_on(line, '\t')[4])
        } else {
            None
        }),
        starts_with(percent_decoded(strip_scheme(split_on(line, '\t')[1])), seq!['/']) ==> {
            &&& starts_with(parse_listing(line)[0].path, seq!['/'])
            &&& !starts_with(parse_listing(line)[0].path, file_scheme())
        },
{
    let f = split_on(line, '\t');
    let raw = strip_scheme(f[1]);
    lemma_split_has_separator(line, '\t', seq![]);
    lemma_split_without_separator(line, '\n', seq![]);
    assert(Seq::<char>::empty() + line =~= line);
    let p = split_on(line, '\n');
    assert(p == seq![line]);
    assert(line.len() > 0);
    assert(lines_of(line) =~= seq![line]);
    let e = entry_of_line(line)->Some_0;
    assert(entry_of_line(line) == Some(e));
    assert(seq![line].drop_last() =~= Seq::<Seq<char>>::empty());
    assert(seq![line].last() == line);
    assert(entries_of_lines(Seq::<Seq<char>>::empty()) == Seq::<AppEntryView>::empty());
    assert(entries_of_lines(seq![line]) =~= seq![e]);
    assert(parse_listing(line) == seq![e]);
    lemma_strip_scheme_done(f[1]);
    lemma_strip_slashes_of_app_path(percent_decoded(raw));
    let path = e.path;
    assert(path.last() == path.skip(path.len() - 4)[3]);
    let d = percent_decoded(raw);
    if starts_with(d, seq!['/']) {
        lemma_strip_slashes_keeps_start(d);
        assert(d.take(1)[0] == d[0]);
        assert(path == strip_slashes(d));
        assert(path[0] == d[0]);
        assert(path.take(1) =~= seq!['/']);
        if path.len() >= 7 {
            assert(path.take(7)[0] == '/');
            assert(file_scheme()[0] == 'f');
        }
    }
    if !path.contains('%') {
        crate::decode::lemma_decode_without_percent_is_identity(path);
    }
}

proof fn lemma_strip_slashes_keeps_start(d: Seq<char>)
    requires
        is_app_path(d),
    ensures
        strip_slashes(d).len() >= 4,
        forall|k: int| 0 <= k < strip_slashes(d).len() ==> strip_slashes(d)[k] == d[k],
{
    lemma_strip_slashes_of_app_path(d);
    if !ends_with(d, app_suffix()) {
        assert(d.last() == d.skip(d.len() - 5)[4]);
        assert(strip_slashes(d) == strip_slashes(d.drop_last()));
        let q = d.drop_last();
        assert(q.skip(q.len() - 4) =~= d.skip(d.len() - 5).take(4));
        assert(q.last() == q.skip(q.len() - 4)[3]);
        assert(strip_slashes(q) == q);
    } else {
        assert(d.last() == d.skip(d.len() - 4)[3]);
        assert(strip_slashes(d) == d);
    }
}

/// Every entry of every listing has a path that ends in `.app`.
pub proof fn lemma_every_path_is_app(s: Seq<char>)
    ensures
        forall|k: int|
            0 <= k < parse_listing(s).len() ==> ends_with(
                #[trigger] parse_listing(s)[k].path,
                app_suffix(),
            ),
{
    lemma_entries_are_apps(lines_of(s));
}

proof fn lemma_entries_are_apps(ls: Seq<Seq<char>>)
    ensures
        forall|k: int|
            0 <= k < entries_of_lines(ls).len() ==> ends_with(
                #[trigger] entries_of_lines(ls)[k].path,
                app_suffix(),
            ),
    decreases ls.len(),
{
    if ls.len() > 0 {
        lemma_entries_are_apps(ls.drop_last());
        let f = split_on(ls.last(), '\t');
        if f.len() >= 2 && is_app_path(percent_decoded(strip_scheme(f[1]))) {
            lemma_strip_slashes_of_app_path(percent_decoded(strip_scheme(f[1])));
        }
    }
}

proof fn lemma_split_at_first(l: Seq<char>, rest: Seq<char>, sep: char, cur: Seq<char>)
    requires
        !l.contains(sep),
    ensures
        split_from(l + seq![sep] + rest, sep, cur) == seq![cur + l] + split_from(rest, sep, seq![]),
    decreases l.len(),
{
    let s = l + seq![sep] + rest;
    if l.len() == 0 {
        assert(s.drop_first() =~= rest);
        assert(cur + l =~= cur);
    } else {
        assert(l[0] != sep) by {
            assert(l.contains(l[0]));
        }
        assert(!l.drop_first().contains(sep)) by {
            if l.drop_first().contains(sep) {
                let k = choose|k: int| 0 <= k < l.drop_first().len() && l.drop_first()[k] == sep;
                assert(l[k + 1] == sep);
            }
        }
        assert(s.drop_first() =~= l.drop_first() + seq![sep] + rest);
        lemma_split_at_first(l.drop_first(), rest, sep, cur.push(l[0]));
        assert(cur.push(l[0]) + l.drop_first() =~= cur + l);
    }
}

/// A line without a tab (fewer than two fields) is skipped: the listing
/// that starts with it parses as the rest of the listing does.
pub proof fn lemma_short_line_is_skipped(l: Seq<char>, rest: Seq<char>)
    requires
        !l.contains('\t'),
        !l.contains('\n'),
    ensures
        parse_listing(l + seq!['\n'] + rest) == parse_listing(rest),
{
    let s = l + seq!['\n'] + rest;
    lemma_split_at_first(l, rest, '\n', seq![]);
    assert(Seq::<char>::empty() + l =~= l);
    let q = split_on(rest, '\n');
    lemma_split_from_nonempty(rest, '\n', seq![]);
    let p = split_on(s, '\n');
    assert(p == seq![l] + q);
    assert(p.last() == q.last());
    let first = strip_cr(l);
    assert(lines_of(s) =~= seq![first] + lines_of(rest)) by {
        let kept_q = if q.last().len() == 0 { q.drop_last() } else { q };
        let kept = if p.last().len() == 0 { p.drop_last() } else { p };
        assert(kept =~= seq![l] + kept_q);
    }
    assert(!first.contains('\t')) by {
        if first.contains('\t') {
            let k = choose|k: int| 0 <= k < first.len() && first[k] == '\t';
            assert(l[k] == '\t');
        }
    }
    lemma_split_without_separator(first, '\t', seq![]);
    assert(Seq::<char>::empty() + first =~= first);
    assert(entry_of_line(first) is None);
    lemma_entries_of_lines_concat(seq![first], lines_of(rest));
    assert(seq![first].drop_last() =~= Seq::<Seq<char>>::empty());
    assert(entries_of_lines(Seq::<Seq<char>>::empty()) == Seq::<AppEntryView>::empty());
    assert(entries_of_lines(seq![first]) =~= Seq::<AppEntryView>::empty());
    assert(Seq::<AppEntryView>::empty() + entries_of_lines(lines_of(rest)) =~= entries_of_lines(
        lines_of(rest),
    ));
}

} // verus!

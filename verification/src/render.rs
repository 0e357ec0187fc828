//! The syntax themes the highlighter bundles, listed for `wdyt themes`.
//! Highlighting itself is done around the library.

use comrak::plugins::syntect::SyntectAdapterBuilder;
use two_face::re_exports::syntect::highlighting::ThemeSet;
use vstd::prelude::*;

use crate::session::strings_view;
use crate::text::{chars_of, string_of};

verus! {

/// The colours of a syntax theme that the page around the code uses, as CSS
/// colours, and whether the theme is dark.
#[derive(Debug, Clone)]
pub struct ThemeColors {
    pub background: String,
    pub foreground: String,
    pub gutter: String,
    pub border: String,
    pub muted: String,
    pub dark: bool,
}

/// Whether `a` sorts strictly before `b`, character by character, a prefix
/// first: how `str` compares, since UTF-8 byte order is code-point order.
pub open spec fn lex_lt(a: Seq<char>, b: Seq<char>) -> bool
    decreases a.len(),
{
    if a.len() == 0 {
        b.len() > 0
    } else if b.len() == 0 {
        false
    } else if a[0] != b[0] {
        a[0] < b[0]
    } else {
        lex_lt(a.drop_first(), b.drop_first())
    }
}

/// Any two strings are ordered one way or the other, or equal.
pub proof fn lemma_lex_total(a: Seq<char>, b: Seq<char>)
    ensures
        lex_lt(a, b) || a == b || lex_lt(b, a),
    decreases a.len(),
{
    if a.len() == 0 {
        if b.len() == 0 {
            assert(a =~= b);
        }
    } else if b.len() > 0 && a[0] == b[0] {
        lemma_lex_total(a.drop_first(), b.drop_first());
        if a.drop_first() == b.drop_first() {
            assert(a =~= seq![a[0]] + a.drop_first());
            assert(b =~= seq![b[0]] + b.drop_first());
        }
    } else if b.len() > 0 {
    }
}

/// Sorting before is transitive.
pub proof fn lemma_lex_trans(a: Seq<char>, b: Seq<char>, c: Seq<char>)
    requires
        lex_lt(a, b),
        lex_lt(b, c),
    ensures
        lex_lt(a, c),
    decreases a.len(),
{
    if a.len() > 0 && b.len() > 0 && c.len() > 0 && a[0] == b[0] && b[0] == c[0] {
        lemma_lex_trans(a.drop_first(), b.drop_first(), c.drop_first());
    }
}

/// A string never sorts before itself.
pub proof fn lemma_lex_irreflexive(a: Seq<char>)
    ensures
        !lex_lt(a, a),
    decreases a.len(),
{
    if a.len() > 0 {
        lemma_lex_irreflexive(a.drop_first());
    }
}

/// Each name is before or equal to the next.
pub open spec fn sorted_names(s: Seq<Seq<char>>) -> bool {
    forall|k: int| 0 <= k < s.len() - 1 ==> #[trigger] s[k] == s[k + 1] || lex_lt(s[k], s[k + 1])
}

pub(crate) fn lex_lt_exec(a: &Vec<char>, b: &Vec<char>) -> (r: bool)
    ensures
        r == lex_lt(a@, b@),
{
    let mut i: usize = 0;
    assert(a@.skip(0) =~= a@);
    assert(b@.skip(0) =~= b@);
    while i < a.len() && i < b.len() && a[i] == b[i]
        invariant
            i <= a.len(),
            i <= b.len(),
            a@.take(i as int) == b@.take(i as int),
            lex_lt(a@, b@) == lex_lt(a@.skip(i as int), b@.skip(i as int)),
        decreases a.len() - i,
    {
        let ghost x = a@.skip(i as int);
        let ghost y = b@.skip(i as int);
        assert(x.drop_first() =~= a@.skip(i + 1));
        assert(y.drop_first() =~= b@.skip(i + 1));
        assert(a@.take(i + 1) =~= a@.take(i as int).push(a@[i as int]));
        assert(b@.take(i + 1) =~= b@.take(i as int).push(b@[i as int]));
        i = i + 1;
    }
    let ghost x = a@.skip(i as int);
    let ghost y = b@.skip(i as int);
    assert(x.len() == a.len() - i && y.len() == b.len() - i);
    if i < a.len() && i < b.len() {
        assert(x[0] == a@[i as int] && y[0] == b@[i as int]);
    }
    if i == a.len() {
        i < b.len()
    } else if i == b.len() {
        false
    } else {
        a[i] < b[i]
    }
}

/// `names` sorted, as `sort_unstable` sorts strings.
pub fn sort_names(names: &Vec<String>) -> (r: Vec<String>)
    ensures
        sorted_names(strings_view(r@)),
        strings_view(r@).to_multiset() == strings_view(names@).to_multiset(),
{
    broadcast use vstd::seq_lib::to_multiset_insert, vstd::seq_lib::to_multiset_build;

    let ghost all = strings_view(names@);
    let mut out: Vec<String> = Vec::new();
    let mut i: usize = 0;
    assert(strings_view(out@) =~= Seq::<Seq<char>>::empty());
    assert(all.take(0) =~= Seq::<Seq<char>>::empty());
    while i < names.len()
        invariant
            i <= names.len(),
            all == strings_view(names@),
            sorted_names(strings_view(out@)),
            strings_view(out@).to_multiset() == all.take(i as int).to_multiset(),
        decreases names.len() - i,
    {
        let x = chars_of(names[i].as_str());
        let ghost cur = strings_view(out@);
        let mut p: usize = 0;
        while p < out.len() && lex_lt_exec(&chars_of(out[p].as_str()), &x)
            invariant
                p <= out.len(),
                cur == strings_view(out@),
                forall|q: int| 0 <= q < p ==> lex_lt(#[trigger] cur[q], x@),
            decreases out.len() - p,
        {
            p = p + 1;
        }
        proof {
            if p < out.len() {
                lemma_lex_total(cur[p as int], x@);
            }
        }
        out.insert(p, names[i].clone());
        proof {
            let next = strings_view(out@);
            assert(next =~= cur.insert(p as int, x@));
            cur.insert_ensures(p as int, x@);
            assert forall|k: int| 0 <= k < next.len() - 1 implies #[trigger] next[k] == next[k + 1]
                || lex_lt(next[k], next[k + 1]) by {
                if k + 1 < p {
                    assert(next[k] == cur[k] && next[k + 1] == cur[k + 1]);
                } else if k + 1 == p {
                    assert(next[k] == cur[k] && next[k + 1] == x@);
                } else if k == p {
                    assert(next[k] == x@ && next[k + 1] == cur[k]);
                } else {
                    assert(next[k] == cur[k - 1] && next[k + 1] == cur[k]);
                }
            }
            assert(all[i as int] == x@);
            assert(all.take(i + 1) =~= all.take(i as int).push(x@));
            vstd::seq_lib::to_multiset_insert(cur, p as int, x@);
            vstd::seq_lib::to_multiset_build(all.take(i as int), x@);
        }
        i = i + 1;
    }
    assert(all.take(i as int) =~= all);
    out
}

/// The names of the themes two-face bundles with `extra()`: one for each
/// `EmbeddedThemeName`, as its `as_name` spells it.
pub open spec fn bundled_themes() -> Seq<Seq<char>> {
    seq![
        "ansi"@,
        "base16"@,
        "base16-eighties.dark"@,
        "base16-mocha.dark"@,
        "base16-ocean.dark"@,
        "base16-ocean.light"@,
        "base16-256"@,
        "Catppuccin Frappe"@,
        "Catppuccin Latte"@,
        "Catppuccin Macchiato"@,
        "Catppuccin Mocha"@,
        "Coldark-Cold"@,
        "Coldark-Dark"@,
        "DarkNeon"@,
        "Dracula"@,
        "GitHub"@,
        "gruvbox-dark"@,
        "gruvbox-light"@,
        "InspiredGitHub"@,
        "1337"@,
        "Monokai Extended"@,
        "Monokai Extended Bright"@,
        "Monokai Extended Light"@,
        "Monokai Extended Origin"@,
        "Nord"@,
        "OneHalfDark"@,
        "OneHalfLight"@,
        "Solarized (dark)"@,
        "Solarized (light)"@,
        "Sublime Snazzy"@,
        "TwoDark"@,
        "zenburn"@,
    ]
}

/// `LazyThemeSet::from(extra()).theme_names()`, collected.
///
/// Trusted: two-face documents its embedded set as exactly the themes of
/// `EmbeddedThemeName`, keyed by `as_name`, in a map, so each name comes
/// once; the order they come in is not stated.
#[verifier::external_body]
fn bundled_theme_names() -> (r: Vec<String>)
    ensures
        strings_view(r@).to_multiset() == bundled_themes().to_multiset(),
{
    two_face::theme::LazyThemeSet::from(two_face::theme::extra())
        .theme_names()
        .map(|name| name.to_owned())
        .collect()
}

/// Theme names, sorted, for `wdyt themes`: every bundled theme, once.
pub fn theme_names() -> (r: Vec<String>)
    ensures
        sorted_names(strings_view(r@)),
        strings_view(r@).to_multiset() == bundled_themes().to_multiset(),
{
    let names = bundled_theme_names();
    sort_names(&names)
}


/// One row of a highlighted listing: the line number, linked, and the code;
/// a line that renders as nothing gets `&nbsp;` so it keeps its height.
pub open spec fn code_row(n: nat, code: Seq<char>) -> Seq<char> {
    let shown = if code.len() == 0 {
        "&nbsp;"@
    } else {
        code
    };
    "<tr id=\"L"@ + crate::text::decimal(n) + "\"><td class=\"ln\"><a href=\"#L"@ + crate::text::decimal(n)
        + "\">"@ + crate::text::decimal(n) + "</a></td><td class=\"code\">"@ + shown + "</td></tr>"@
}

/// The rows of a listing whose lines rendered as `lines`.
pub open spec fn code_rows(lines: Seq<Seq<char>>) -> Seq<char>
    decreases lines.len(),
{
    if lines.len() == 0 {
        Seq::empty()
    } else {
        code_rows(lines.drop_last()) + code_row(lines.len(), lines.last())
    }
}

/// The table a highlighted file is shown in: a numbered row per line, or a
/// note that the file is empty.
pub open spec fn spec_code_table(lines: Seq<Seq<char>>) -> Seq<char> {
    "<table class=\"src\">"@ + (if lines.len() == 0 {
        "<tr><td class=\"ln\"></td><td class=\"code\"><em>empty file</em></td></tr>"@
    } else {
        code_rows(lines)
    }) + "</table>"@
}

/// Builds the table for a file whose lines were highlighted as `lines`.
pub fn code_table(lines: &Vec<String>) -> (r: String)
    requires
        lines@.len() < u64::MAX,
    ensures
        r@ == spec_code_table(strings_view(lines@)),
{
    let ghost ls = strings_view(lines@);
    let mut rows: Vec<char> = Vec::new();
    let mut i: usize = 0;
    assert(ls.take(0) =~= Seq::<Seq<char>>::empty());
    while i < lines.len()
        invariant
            i <= lines.len(),
            lines@.len() < u64::MAX,
            ls == strings_view(lines@),
            rows@ == code_rows(ls.take(i as int)),
        decreases lines.len() - i,
    {
        assert(ls.take(i + 1).drop_last() =~= ls.take(i as int));
        assert(ls.take(i + 1).last() == lines@[i as int]@);
        let n = (i + 1) as u64;
        crate::text::push_str(&mut rows, "<tr id=\"L");
        crate::text::push_decimal(&mut rows, n);
        crate::text::push_str(&mut rows, "\"><td class=\"ln\"><a href=\"#L");
        crate::text::push_decimal(&mut rows, n);
        crate::text::push_str(&mut rows, "\">");
        crate::text::push_decimal(&mut rows, n);
        crate::text::push_str(&mut rows, "</a></td><td class=\"code\">");
        let code = chars_of(lines[i].as_str());
        if code.len() == 0 {
            crate::text::push_str(&mut rows, "&nbsp;");
        } else {
            crate::text::push_chars(&mut rows, &code);
        }
        crate::text::push_str(&mut rows, "</td></tr>");
        assert(rows@ =~= code_rows(ls.take(i + 1)));
        i = i + 1;
    }
    assert(ls.take(i as int) =~= ls);
    let mut out = chars_of("<table class=\"src\">");
    if lines.len() == 0 {
        crate::text::push_str(&mut out, "<tr><td class=\"ln\"></td><td class=\"code\"><em>empty file</em></td></tr>");
    } else {
        crate::text::push_chars(&mut out, &rows);
    }
    crate::text::push_str(&mut out, "</table>");
    string_of(&out)
}

/// The theme used when the configured one is not bundled.
pub const FALLBACK_THEME: &'static str = "Nord";

/// Which bundled theme a name resolves to: the name itself when bundled,
/// else the fallback, else the first bundled theme.
pub fn resolve_theme(name: &str, names: &Vec<String>) -> (r: Option<String>)
    ensures
        match r {
            Some(t) => if strings_view(names@).contains(name@) {
                t@ == name@
            } else if strings_view(names@).contains(FALLBACK_THEME@) {
                t@ == FALLBACK_THEME@
            } else {
                names@.len() > 0 && t@ == names@[0]@
            },
            None => names@.len() == 0,
        },
{
    if crate::cli::check_theme(name, names).is_ok() {
        return Some(name.to_owned());
    }
    if crate::cli::check_theme(FALLBACK_THEME, names).is_ok() {
        return Some(FALLBACK_THEME.to_owned());
    }
    if names.len() > 0 {
        Some(names[0].clone())
    } else {
        None
    }
}


// ---------------------------------------------------------------------------
// Highlighting and Markdown, through syntect and comrak.
// ---------------------------------------------------------------------------

/// The theme a name resolves to: itself when two-face bundles it, else the
/// fallback.
pub open spec fn spec_theme_for(name: Seq<char>) -> Seq<char> {
    if bundled_themes().contains(name) {
        name
    } else {
        FALLBACK_THEME@
    }
}

/// The fallback theme is one of the bundled themes, so a name that resolves
/// to it still names a theme that exists.
pub proof fn fallback_is_bundled()
    ensures
        bundled_themes().contains(FALLBACK_THEME@),
{
    reveal_strlit("Nord");
    assert(bundled_themes()[24] == FALLBACK_THEME@);
}

/// The bundled theme to use for `name`, falling back to `FALLBACK_THEME` so
/// a typo in the config does not stop the tool.
pub fn theme_for(name: &str) -> (r: String)
    ensures
        r@ == spec_theme_for(name@),
        bundled_themes().contains(r@),
{
    broadcast use vstd::seq_lib::group_to_multiset_ensures;

    let names = theme_names();
    let ghost got = strings_view(names@);
    proof {
        reveal_strlit("Nord");
        assert(bundled_themes()[24] == FALLBACK_THEME@);
        assert(got.contains(name@) <==> got.to_multiset().count(name@) > 0);
        assert(bundled_themes().contains(name@) <==> bundled_themes().to_multiset().count(name@) > 0);
        assert(bundled_themes().to_multiset().count(FALLBACK_THEME@) > 0);
        assert(got.contains(FALLBACK_THEME@));
    }
    match resolve_theme(name, &names) {
        Some(t) => t,
        None => String::new(),
    }
}

/// The name of the syntax two-face bundles for the file extension `ext`.
pub uninterp spec fn syntax_by_extension(ext: Seq<char>) -> Option<Seq<char>>;

/// The name of the syntax two-face bundles whose first-line pattern matches
/// `line`.
pub uninterp spec fn syntax_by_first_line(line: Seq<char>) -> Option<Seq<char>>;

/// The per-line HTML syntect gives `text`, highlighted as one document with
/// the syntax and theme so named; nothing when either is not bundled or
/// highlighting fails.
pub uninterp spec fn highlighted_lines(syntax: Seq<char>, text: Seq<char>, theme: Seq<char>) -> Option<
    Seq<Seq<char>>,
>;

/// The HTML comrak renders `source` to, with GFM tables, strikethrough,
/// autolinks, task lists, footnotes, alerts and description lists, source
/// positions on every block, raw HTML left out (comrak writes an "omitted"
/// comment in its place), and fenced code highlighted with the named theme.
pub uninterp spec fn markdown_html(source: Seq<char>, theme: Seq<char>) -> Seq<char>;

/// The HTML comrak renders `source` to with the extensions of
/// `markdown_html` but without source positions, raw HTML passed through as
/// written, and fenced code highlighted with the named theme.
pub uninterp spec fn plain_markdown_html(source: Seq<char>, theme: Seq<char>) -> Seq<char>;

/// `extra_newlines().find_syntax_by_extension(ext)`, by name.
///
/// Trusted: the lookup is a function of the extension over the bundled set;
/// its result is named.
#[verifier::external_body]
fn find_syntax_by_extension(ext: &str) -> (r: Option<String>)
    ensures
        crate::zellij_origin::opt_view(r) == syntax_by_extension(ext@),
{
    two_face::syntax::extra_newlines().find_syntax_by_extension(ext).map(|syntax| syntax.name.clone())
}

/// `extra_newlines().find_syntax_by_first_line(line)`, by name.
///
/// Trusted: as for `find_syntax_by_extension`.
#[verifier::external_body]
fn find_syntax_by_first_line(line: &str) -> (r: Option<String>)
    ensures
        crate::zellij_origin::opt_view(r) == syntax_by_first_line(line@),
{
    two_face::syntax::extra_newlines().find_syntax_by_first_line(line).map(|syntax| syntax.name.clone())
}

/// syntect's `HighlightLines` over `LinesWithEndings::from(text)`, each line
/// turned into HTML by `styled_line_to_highlighted_html` without background.
///
/// Trusted: highlighting is a function of the syntax, the text and the theme;
/// its result is named. Nothing comes back for a syntax or theme that is not
/// bundled, or when syntect reports an error.
#[verifier::external_body]
pub(crate) fn highlight_text(syntax: &str, text: &str, theme: &str) -> (r: Option<Vec<String>>)
    ensures
        match r {
            Some(v) => highlighted_lines(syntax@, text@, theme@) == Some(strings_view(v@)),
            None => highlighted_lines(syntax@, text@, theme@) is None,
        },
{
    let set = two_face::syntax::extra_newlines();
    let themes = two_face::theme::LazyThemeSet::from(two_face::theme::extra());
    let mut h = two_face::re_exports::syntect::easy::HighlightLines::new(set.find_syntax_by_name(syntax)?, themes.get(theme)?);
    two_face::re_exports::syntect::util::LinesWithEndings::from(text).map(|line| {
        let regions = h.highlight_line(line, &set).ok()?;
        two_face::re_exports::syntect::html::styled_line_to_highlighted_html(&regions, two_face::re_exports::syntect::html::IncludeBackground::No).ok()
    }).collect()
}

/// `comrak::markdown_to_html_with_plugins` with the options `markdown_html`
/// names and syntect highlighting fenced code in `theme`.
///
/// Trusted: rendering is a function of the source and the theme; its result
/// is named. The theme must be bundled: the adapter indexes the theme set by
/// it.
#[verifier::external_body]
fn render_markdown(source: &str, theme: &str) -> (r: String)
    requires
        bundled_themes().contains(theme@),
    ensures
        r@ == markdown_html(source@, theme@),
{
    let mut o = comrak::Options::default();
    let e = &mut o.extension;
    (e.table, e.strikethrough, e.autolink, e.tasklist, e.footnotes) = (true, true, true, true, true);
    (e.alerts, e.description_lists, e.header_id_prefix) = (true, true, Some(String::new()));
    o.render.sourcepos = true;
    let themes = ThemeSet::from(two_face::theme::extra());
    let a = SyntectAdapterBuilder::new().syntax_set(two_face::syntax::extra_newlines()).theme_set(themes).theme(theme).build();
    let mut p = comrak::options::Plugins::default();
    p.render.codefence_syntax_highlighter = Some(&a);
    comrak::markdown_to_html_with_plugins(source, &o, &p)
}

/// `comrak::markdown_to_html_with_plugins` with the options
/// `plain_markdown_html` names and syntect highlighting fenced code in
/// `theme`.
///
/// Trusted: rendering is a function of the source and the theme; its result
/// is named. The theme must be bundled: the adapter indexes the theme set by
/// it.
#[verifier::external_body]
fn render_plain_markdown(source: &str, theme: &str) -> (r: String)
    requires
        bundled_themes().contains(theme@),
    ensures
        r@ == plain_markdown_html(source@, theme@),
{
    let mut o = comrak::Options::default();
    let e = &mut o.extension;
    (e.table, e.strikethrough, e.autolink, e.tasklist, e.footnotes) = (true, true, true, true, true);
    (e.alerts, e.description_lists, e.header_id_prefix) = (true, true, Some(String::new()));
    o.render = comrak::options::Render::builder().maybe_unsafe(Some(true)).build();
    let themes = ThemeSet::from(two_face::theme::extra());
    let a = SyntectAdapterBuilder::new().syntax_set(two_face::syntax::extra_newlines()).theme_set(themes).theme(theme).build();
    let mut p = comrak::options::Plugins::default();
    p.render.codefence_syntax_highlighter = Some(&a);
    comrak::markdown_to_html_with_plugins(source, &o, &p)
}

/// The name of the syntax a file gets: by its extension, else by its whole
/// name taken as an extension (`Makefile`), else by its first line when one
/// is given, else plain text.
pub open spec fn spec_syntax_for(label: Seq<char>, first_line: Option<Seq<char>>) -> Seq<char> {
    let by_ext = match crate::text::path_extension(label) {
        Some(e) => syntax_by_extension(e),
        None => None,
    };
    let by_name = match crate::text::path_file_name(label) {
        Some(n) => syntax_by_extension(n),
        None => None,
    };
    let by_line = match first_line {
        Some(l) => syntax_by_first_line(l),
        None => None,
    };
    match by_ext {
        Some(x) => x,
        None => match by_name {
            Some(x) => x,
            None => match by_line {
                Some(x) => x,
                None => PLAIN_TEXT@,
            },
        },
    }
}

/// The name of syntect's plain-text syntax.
pub const PLAIN_TEXT: &'static str = "Plain Text";

/// Picks the syntax a file is highlighted with; see `spec_syntax_for`.
pub fn syntax_for(label: &str, first_line: Option<&str>) -> (r: String)
    ensures
        r@ == spec_syntax_for(label@, crate::text::str_opt_view(first_line)),
{
    let by_ext = match crate::text::extension_of(label) {
        Some(e) => find_syntax_by_extension(e.as_str()),
        None => None,
    };
    if let Some(x) = by_ext {
        return x;
    }
    let by_name = match crate::text::file_name_of(label) {
        Some(n) => find_syntax_by_extension(n.as_str()),
        None => None,
    };
    if let Some(x) = by_name {
        return x;
    }
    let by_line = match first_line {
        Some(l) => find_syntax_by_first_line(l),
        None => None,
    };
    match by_line {
        Some(x) => x,
        None => PLAIN_TEXT.to_owned(),
    }
}

/// `s` as `str::lines` splits it.
fn source_lines(s: &str) -> (r: Vec<String>)
    ensures
        strings_view(r@) == crate::text::lines_of(s@),
{
    let parts = crate::text::lines_exec(&chars_of(s));
    let mut out: Vec<String> = Vec::new();
    let mut i: usize = 0;
    while i < parts.len()
        invariant
            i <= parts.len(),
            out@.len() == i,
            forall|k: int| 0 <= k < i ==> #[trigger] out@[k]@ == parts@[k]@,
        decreases parts.len() - i,
    {
        out.push(string_of(&parts[i]));
        i = i + 1;
    }
    assert(strings_view(out@) =~= crate::text::views(parts@));
    out
}

/// The first line of `s`, as `s.lines().next().unwrap_or("")` gives it.
pub open spec fn first_line_of(s: Seq<char>) -> Seq<char> {
    let ls = crate::text::lines_of(s);
    if ls.len() > 0 {
        ls[0]
    } else {
        Seq::empty()
    }
}

/// What highlighting a file gives: the listing table, one highlighted line
/// per source line, and the syntax's name; an error when syntect could not
/// highlight it.
pub open spec fn highlight_outcome(label: Seq<char>, source: Seq<char>, theme: Seq<char>, r: Result<
    crate::session::CodeFile,
    String,
>) -> bool {
    let syntax = spec_syntax_for(label, Some(first_line_of(source)));
    match highlighted_lines(syntax, source, spec_theme_for(theme)) {
        None => r matches Err(e) && e@ == "highlighting failed"@,
        Some(lines) => if lines.len() >= u64::MAX {
            r matches Err(e) && e@ == "highlighting failed"@
        } else {
            r matches Ok(f) && f.label@ == label && f.language@ == syntax && strings_view(
                f.highlighted@,
            ) == lines && f.lines == lines.len() && f.html@ == spec_code_table(lines) && strings_view(
                f.sources@,
            ) == crate::text::lines_of(source)
        },
    }
}

/// Highlights a source file with the named theme (or the fallback) into a
/// numbered listing.
pub fn highlight(label: &str, source: &str, theme_name: &str) -> (r: Result<
    crate::session::CodeFile,
    String,
>)
    ensures
        highlight_outcome(label@, source@, theme_name@, r),
{
    let sources = source_lines(source);
    let first = if sources.len() > 0 {
        sources[0].clone()
    } else {
        String::new()
    };
    let syntax = syntax_for(label, Some(first.as_str()));
    let theme = theme_for(theme_name);
    let highlighted = match highlight_text(syntax.as_str(), source, theme.as_str()) {
        Some(v) => v,
        None => {
            return Err("highlighting failed".to_owned());
        },
    };
    if highlighted.len() as u64 >= u64::MAX {
        return Err("highlighting failed".to_owned());
    }
    let html = code_table(&highlighted);
    Ok(crate::session::CodeFile {
        label: label.to_owned(),
        html,
        lines: highlighted.len(),
        highlighted,
        sources,
        language: syntax,
    })
}

/// The highlighted lines of a diffed file's captured source, for revealing:
/// the lines joined with newlines, each ended, highlighted as one document.
pub fn highlight_source(label: &str, source: &Vec<String>, theme_name: &str) -> (r: Option<Vec<String>>)
    ensures
        match r {
            Some(v) => highlighted_lines(
                spec_syntax_for(label@, None),
                crate::text::join(strings_view(source@), seq!['\n']) + seq!['\n'],
                spec_theme_for(theme_name@),
            ) == Some(strings_view(v@)),
            None => highlighted_lines(
                spec_syntax_for(label@, None),
                crate::text::join(strings_view(source@), seq!['\n']) + seq!['\n'],
                spec_theme_for(theme_name@),
            ) is None,
        },
{
    let syntax = syntax_for(label, None);
    let theme = theme_for(theme_name);
    let ghost all = strings_view(source@);
    assert(all.subrange(0, source@.len() as int) =~= all);
    let mut text = chars_of(crate::text::join_lines_range(source, 0, source.len()).as_str());
    text.push('\n');
    assert(text@ =~= crate::text::join(all, seq!['\n']) + seq!['\n']);
    let text = string_of(&text);
    highlight_text(syntax.as_str(), text.as_str(), theme.as_str())
}

/// Renders Markdown for reading (see `plain_markdown_html`) with the named
/// theme or the fallback, keeping the source lines.
pub fn markdown(label: &str, source: &str, theme_name: &str) -> (r: crate::session::DocFile)
    ensures
        r.label@ == label@,
        r.html@ == plain_markdown_html(source@, spec_theme_for(theme_name@)),
        strings_view(r.sources@) == crate::text::lines_of(source@),
{
    let theme = theme_for(theme_name);
    crate::session::DocFile {
        label: label.to_owned(),
        html: render_plain_markdown(source, theme.as_str()),
        sources: source_lines(source),
    }
}

/// Renders Markdown for commenting (see `markdown_html`) with the named
/// theme or the fallback, keeping the source lines a comment quotes from.
pub fn markdown_commentable(label: &str, source: &str, theme_name: &str) -> (r: crate::session::DocFile)
    ensures
        r.label@ == label@,
        r.html@ == markdown_html(source@, spec_theme_for(theme_name@)),
        strings_view(r.sources@) == crate::text::lines_of(source@),
{
    let theme = theme_for(theme_name);
    crate::session::DocFile {
        label: label.to_owned(),
        html: render_markdown(source, theme.as_str()),
        sources: source_lines(source),
    }
}
} // verus!

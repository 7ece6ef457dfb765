//! Syntax highlighting of code blocks.
//!
//! `syntect` parses each line and reports scope changes; the innermost
//! scope of each region picks one of a dozen token classes, and each class
//! has an ANSI style. A scope is written as dot-separated atoms, and a scope
//! is a prefix of another when its atoms begin the other's.

use crate::markdown::{lines_of, lines_spec};
use crate::paths::split_on;
use crate::style::{line_text, new_style, plain, plain_style, span, spans_view, style_of, Color, Span, Style, BOLD, ITALIC};
use crate::text::{chars_of, concat, copy_string, lit, starts_with, string_from_chars};
use crate::wrap::{lines_view, SView};
use syntect::parsing::{ParseState, ScopeStack, SyntaxReference, SyntaxSet};
use vstd::prelude::*;

verus! {

#[verifier::external_type_specification]
#[verifier::external_body]
pub struct ExSyntaxSet(syntect::parsing::SyntaxSet);

#[verifier::external_type_specification]
#[verifier::external_body]
pub struct ExSyntaxReference(syntect::parsing::SyntaxReference);

#[verifier::external_type_specification]
#[verifier::external_body]
pub struct ExParseState(syntect::parsing::ParseState);

#[verifier::external_type_specification]
#[verifier::external_body]
pub struct ExScopeStack(syntect::parsing::ScopeStack);

/// Token classes of highlighted code.
#[derive(Clone, Copy, Debug, PartialEq, Eq, Structural)]
pub enum CodeToken {
    Comment,
    String,
    Number,
    Operator,
    Keyword,
    Function,
    Type,
    Tag,
    Punctuation,
    Variable,
    Constant,
    Normal,
}

/// The style of a token class.
pub open spec fn token_style(t: CodeToken) -> Style {
    match t {
        CodeToken::Comment => style_of(Some(Color::DarkGray), ITALIC),
        CodeToken::String => style_of(Some(Color::Green), 0),
        CodeToken::Number => style_of(Some(Color::Cyan), 0),
        CodeToken::Operator => style_of(Some(Color::Cyan), 0),
        CodeToken::Keyword => style_of(Some(Color::Magenta), 0),
        CodeToken::Function => style_of(Some(Color::Blue), 0),
        CodeToken::Type => style_of(Some(Color::Yellow), 0),
        CodeToken::Tag => style_of(Some(Color::Red), 0),
        CodeToken::Punctuation => plain(),
        CodeToken::Variable => style_of(Some(Color::Red), 0),
        CodeToken::Constant => style_of(Some(Color::Cyan), BOLD),
        CodeToken::Normal => plain(),
    }
}

impl CodeToken {
    /// The style of this token class.
    pub fn to_style(&self) -> (r: Style)
        ensures
            r == token_style(*self),
    {
        match self {
            CodeToken::Comment => new_style(Some(Color::DarkGray), ITALIC),
            CodeToken::String => new_style(Some(Color::Green), 0),
            CodeToken::Number => new_style(Some(Color::Cyan), 0),
            CodeToken::Operator => new_style(Some(Color::Cyan), 0),
            CodeToken::Keyword => new_style(Some(Color::Magenta), 0),
            CodeToken::Function => new_style(Some(Color::Blue), 0),
            CodeToken::Type => new_style(Some(Color::Yellow), 0),
            CodeToken::Tag => new_style(Some(Color::Red), 0),
            CodeToken::Punctuation => plain_style(),
            CodeToken::Variable => new_style(Some(Color::Red), 0),
            CodeToken::Constant => new_style(Some(Color::Cyan), BOLD),
            CodeToken::Normal => plain_style(),
        }
    }
}

/// The scope `p` is a prefix of the scope `s`: its atoms begin `s`'s atoms.
pub open spec fn scope_prefix(p: Seq<char>, s: Seq<char>) -> bool {
    s == p || starts_with(s, p.push('.'))
}

/// The token class of a scope; the most specific classes are tried first.
pub open spec fn scope_token(s: Seq<char>) -> CodeToken {
    if scope_prefix("comment"@, s) {
        CodeToken::Comment
    } else if scope_prefix("string"@, s) || scope_prefix("constant.character"@, s) {
        CodeToken::String
    } else if scope_prefix("constant.numeric"@, s) {
        CodeToken::Number
    } else if scope_prefix("keyword.operator"@, s) {
        CodeToken::Operator
    } else if scope_prefix("keyword"@, s) || scope_prefix("storage"@, s) {
        CodeToken::Keyword
    } else if scope_prefix("entity.name.function"@, s) || scope_prefix("support.function"@, s) {
        CodeToken::Function
    } else if scope_prefix("entity.name.type"@, s) || scope_prefix("support.type"@, s) {
        CodeToken::Type
    } else if scope_prefix("entity.name.tag"@, s) {
        CodeToken::Tag
    } else if scope_prefix("punctuation"@, s) {
        CodeToken::Punctuation
    } else if scope_prefix("variable"@, s) || scope_prefix("entity.name"@, s) {
        CodeToken::Variable
    } else if scope_prefix("constant"@, s) {
        CodeToken::Constant
    } else {
        CodeToken::Normal
    }
}

/// The style of code under the innermost scope `scope` (none: plain).
pub open spec fn scope_style(scope: Option<Seq<char>>) -> Style {
    match scope {
        None => token_style(CodeToken::Normal),
        Some(s) => token_style(scope_token(s)),
    }
}

/// Whether the scope `p` is a prefix of the scope `s`.
pub fn is_scope_prefix(p: &str, s: &str) -> (r: bool)
    ensures
        r == scope_prefix(p@, s@),
{
    let pv = chars_of(p);
    let sv = chars_of(s);
    if sv.len() < pv.len() {
        assert(s@ != p@);
        return false;
    }
    let mut i: usize = 0;
    while i < pv.len()
        invariant
            i <= pv.len() <= sv.len(),
            pv@ == p@,
            sv@ == s@,
            forall|j: int| 0 <= j < i ==> pv@[j] == sv@[j],
        decreases pv.len() - i,
    {
        if pv[i] != sv[i] {
            assert(s@[i as int] != p@[i as int]);
            assert(s@ != p@);
            if sv.len() > pv.len() {
                assert(s@.subrange(0, p@.len() + 1 as int)[i as int] != p@.push('.')[i as int]);
            }
            return false;
        }
        i = i + 1;
    }
    if sv.len() == pv.len() {
        assert(s@ =~= p@);
        true
    } else {
        let dot = sv[pv.len()] == '.';
        proof {
            assert(s@ != p@);
            if dot {
                assert(s@.subrange(0, p@.len() + 1 as int) =~= p@.push('.'));
            } else {
                assert(s@.subrange(0, p@.len() + 1 as int)[p@.len() as int] != p@.push('.')[p@.len() as int]);
            }
        }
        dot
    }
}

/// The token class of a scope.
pub fn scope_token_of(s: &str) -> (r: CodeToken)
    ensures
        r == scope_token(s@),
{
    proof {
        reveal_strlit("comment");
        reveal_strlit("string");
        reveal_strlit("constant.character");
        reveal_strlit("constant.numeric");
        reveal_strlit("keyword.operator");
        reveal_strlit("keyword");
        reveal_strlit("storage");
        reveal_strlit("entity.name.function");
        reveal_strlit("support.function");
        reveal_strlit("entity.name.type");
        reveal_strlit("support.type");
        reveal_strlit("entity.name.tag");
        reveal_strlit("punctuation");
        reveal_strlit("variable");
        reveal_strlit("entity.name");
        reveal_strlit("constant");
    }
    if is_scope_prefix("comment", s) {
        CodeToken::Comment
    } else if is_scope_prefix("string", s) || is_scope_prefix("constant.character", s) {
        CodeToken::String
    } else if is_scope_prefix("constant.numeric", s) {
        CodeToken::Number
    } else if is_scope_prefix("keyword.operator", s) {
        CodeToken::Operator
    } else if is_scope_prefix("keyword", s) || is_scope_prefix("storage", s) {
        CodeToken::Keyword
    } else if is_scope_prefix("entity.name.function", s) || is_scope_prefix("support.function", s) {
        CodeToken::Function
    } else if is_scope_prefix("entity.name.type", s) || is_scope_prefix("support.type", s) {
        CodeToken::Type
    } else if is_scope_prefix("entity.name.tag", s) {
        CodeToken::Tag
    } else if is_scope_prefix("punctuation", s) {
        CodeToken::Punctuation
    } else if is_scope_prefix("variable", s) || is_scope_prefix("entity.name", s) {
        CodeToken::Variable
    } else if is_scope_prefix("constant", s) {
        CodeToken::Constant
    } else {
        CodeToken::Normal
    }
}

/// The style of code whose innermost scope is `scope` (given as its
/// dot-separated string), plain when there is no scope.
pub fn scope_to_style(scope: Option<&str>) -> (r: Style)
    ensures
        r == scope_style(match scope {
            None => None,
            Some(s) => Some(s@),
        }),
{
    match scope {
        None => CodeToken::Normal.to_style(),
        Some(s) => scope_token_of(s).to_style(),
    }
}

/// The lines of `s` with their line endings (`LinesWithEndings`): each
/// piece up to and including a `\n`, then the rest if it is not empty.
pub open spec fn lines_with_endings_spec(s: Seq<char>) -> Seq<Seq<char>> {
    let ps = split_on(s, '\n');
    let ended = ps.drop_last().map_values(|p: Seq<char>| p.push('\n'));
    if ps.last().len() == 0 {
        ended
    } else {
        ended.push(ps.last())
    }
}

/// The lines of `s` with their line endings.
pub fn lines_with_endings(s: &str) -> (r: Vec<String>)
    ensures
        r@.map_values(|l: String| l@) == lines_with_endings_spec(s@),
{
    let cs = chars_of(s);
    let mut out: Vec<String> = Vec::new();
    let mut cur: Vec<char> = Vec::new();
    let mut i: usize = 0;
    assert(s@.take(0) =~= Seq::<char>::empty());
    while i < cs.len()
        invariant
            i <= cs.len(),
            cs@ == s@,
            split_on(s@.take(i as int), '\n').len() >= 1,
            out@.map_values(|l: String| l@) == split_on(s@.take(i as int), '\n').drop_last().map_values(
                |p: Seq<char>| p.push('\n'),
            ),
            cur@ == split_on(s@.take(i as int), '\n').last(),
        decreases cs.len() - i,
    {
        let ghost before = split_on(s@.take(i as int), '\n');
        assert(s@.take(i + 1).drop_last() =~= s@.take(i as int));
        let c = cs[i];
        if c == '\n' {
            let mut line = cur;
            line.push('\n');
            let ghost out0 = out@;
            out.push(string_from_chars(&line));
            cur = Vec::new();
            assert(before.push(Seq::<char>::empty()).drop_last() =~= before);
            assert(out@.map_values(|l: String| l@) =~= out0.map_values(|l: String| l@).push(before.last().push('\n')));
            assert(before.drop_last().map_values(|p: Seq<char>| p.push('\n')).push(before.last().push('\n'))
                =~= before.map_values(|p: Seq<char>| p.push('\n')));
        } else {
            cur.push(c);
            let ghost after = before.update(before.len() - 1, before.last().push(c));
            assert(after.drop_last() =~= before.drop_last());
        }
        i = i + 1;
    }
    assert(s@.take(cs.len() as int) =~= s@);
    if cur.len() > 0 {
        out.push(string_from_chars(&cur));
    }
    out
}

/// `t` without its trailing newlines (`trim_end_matches('\n')`).
pub open spec fn trim_newlines(t: Seq<char>) -> Seq<char>
    decreases t.len(),
{
    if t.len() > 0 && t.last() == '\n' {
        trim_newlines(t.drop_last())
    } else {
        t
    }
}

/// `t` without its trailing newlines.
pub fn trim_newlines_of(t: &String) -> (r: String)
    ensures
        r@ == trim_newlines(t@),
{
    let mut v = chars_of(t.as_str());
    assert(v@ =~= t@);
    while v.len() > 0 && v[v.len() - 1] == '\n'
        invariant
            trim_newlines(t@) == trim_newlines(v@),
        decreases v.len(),
    {
        let ghost before = v@;
        v.pop();
        assert(v@ =~= before.drop_last());
    }
    string_from_chars(&v)
}

/// The spans of one line from its regions (text and innermost scope):
/// empty regions are skipped, newlines trimmed, the scope gives the style.
pub open spec fn region_spans(rs: Seq<(Seq<char>, Option<Seq<char>>)>) -> Seq<SView>
    decreases rs.len(),
{
    if rs.len() == 0 {
        Seq::empty()
    } else {
        let prev = region_spans(rs.drop_last());
        if rs.last().0.len() == 0 {
            prev
        } else {
            prev.push((trim_newlines(rs.last().0), scope_style(rs.last().1)))
        }
    }
}

/// No newline in `t` but possibly its last character.
pub open spec fn newline_only_at_end(t: Seq<char>) -> bool {
    forall|j: int| 0 <= j < t.len() - 1 ==> t[j] != '\n'
}

proof fn lemma_split_no_sep(s: Seq<char>, sep: char)
    ensures
        split_on(s, sep).len() >= 1,
        forall|k: int, j: int|
            0 <= k < split_on(s, sep).len() && 0 <= j < split_on(s, sep)[k].len() ==> #[trigger] split_on(s, sep)[k][j] != sep,
    decreases s.len(),
{
    if s.len() > 0 {
        lemma_split_no_sep(s.drop_last(), sep);
        let prev = split_on(s.drop_last(), sep);
        if s.last() != sep {
            let cur = split_on(s, sep);
            assert forall|k: int, j: int| 0 <= k < cur.len() && 0 <= j < cur[k].len() implies #[trigger] cur[k][j] != sep by {
                if k < prev.len() - 1 {
                    assert(cur[k] == prev[k]);
                } else if j < prev.last().len() {
                    assert(cur[k][j] == prev[prev.len() - 1][j]);
                }
            }
        }
    }
}

/// Each line with its ending has a newline at most at its end.
proof fn lemma_line_endings(s: Seq<char>)
    ensures
        forall|i: int| 0 <= i < lines_with_endings_spec(s).len() ==> newline_only_at_end(#[trigger] lines_with_endings_spec(s)[i]),
{
    let ps = split_on(s, '\n');
    lemma_split_no_sep(s, '\n');
    let ls = lines_with_endings_spec(s);
    assert forall|i: int| 0 <= i < ls.len() implies newline_only_at_end(#[trigger] ls[i]) by {
        if i < ps.len() - 1 {
            assert(ls[i] == ps[i].push('\n'));
            assert forall|j: int| 0 <= j < ls[i].len() - 1 implies ls[i][j] != '\n' by {
                assert(ls[i][j] == ps[i][j]);
            }
        } else {
            assert(ls[i] == ps[ps.len() - 1]);
            assert forall|j: int| 0 <= j < ls[i].len() - 1 implies ls[i][j] != '\n' by {
                assert(ls[i][j] == ps[ps.len() - 1][j]);
            }
        }
    }
}

/// The spans of a line's regions show the line's text without its newline.
proof fn lemma_region_text(rv: Seq<(Seq<char>, Option<Seq<char>>)>, t: Seq<char>)
    requires
        concat(rv.map_values(|x: (Seq<char>, Option<Seq<char>>)| x.0)) == t,
        newline_only_at_end(t),
    ensures
        line_text(region_spans(rv)) == trim_newlines(t),
    decreases rv.len(),
{
    let m = rv.map_values(|x: (Seq<char>, Option<Seq<char>>)| x.0);
    if rv.len() == 0 {
        assert(line_text(region_spans(rv)) =~= Seq::<char>::empty());
    } else {
        let prev = rv.drop_last();
        assert(prev.map_values(|x: (Seq<char>, Option<Seq<char>>)| x.0) =~= m.drop_last());
        let head = concat(m.drop_last());
        let last = rv.last().0;
        assert(m.last() == last);
        assert(t == head + last);
        assert(newline_only_at_end(head)) by {
            assert forall|j: int| 0 <= j < head.len() - 1 implies head[j] != '\n' by {
                assert(head[j] == t[j]);
            }
        }
        lemma_region_text(prev, head);
        if last.len() == 0 {
            assert(t =~= head);
        } else {
            let sp = region_spans(rv);
            assert(sp == region_spans(prev).push((trim_newlines(last), scope_style(rv.last().1))));
            assert(sp.drop_last() =~= region_spans(prev));
            assert(line_text(sp) == trim_newlines(head) + trim_newlines(last));
            // `head` ends before the last character of `t`: no newline in it.
            if head.len() > 0 {
                assert(head.last() == t[head.len() - 1]);
            }
            assert(trim_newlines(head) == head);
            if last.last() == '\n' {
                let d = last.drop_last();
                if d.len() > 0 {
                    assert(d.last() == t[head.len() + d.len() - 1]);
                }
                assert(trim_newlines(d) == d);
                assert(trim_newlines(last) == d);
                assert(t.last() == '\n');
                assert(t.drop_last() =~= head + d);
                if head.len() + d.len() > 0 {
                    assert((head + d).last() == t[head.len() + d.len() - 1]);
                }
                assert(trim_newlines(head + d) == head + d);
                assert(trim_newlines(t) == head + d);
            } else {
                assert(t.last() == last.last());
                assert(trim_newlines(t) == t);
            }
        }
    }
}

/// The lines of code shown without highlighting: each line one span in the
/// plain style.
pub open spec fn plain_code_lines(code: Seq<char>) -> Seq<Seq<SView>> {
    lines_spec(code).map_values(|l: Seq<char>| seq![(l, plain())])
}

/// The syntaxes code is highlighted with: `syntect`'s default set (the
/// variant whose syntaxes expect each line with its ending). Only
/// [`Syntaxes::load`] makes one, so every value holds that same set.
pub struct Syntaxes {
    set: SyntaxSet,
}

/// `SyntaxSet::load_defaults_newlines` from `syntect`: the syntaxes shipped
/// with the crate. Nothing is stated of them here; what highlighting with
/// them gives is named below.
#[verifier::external_body]
fn default_syntax_set() -> (r: SyntaxSet) {
    SyntaxSet::load_defaults_newlines()
}

impl Syntaxes {
    /// The default syntaxes.
    pub fn load() -> (r: Syntaxes) {
        Syntaxes { set: default_syntax_set() }
    }
}

/// Whether the default syntaxes have one for the fence token `lang`
/// (`SyntaxSet::find_syntax_by_token`: by file extension, then by name).
pub uninterp spec fn syntax_found(lang: Seq<char>) -> bool;

/// The regions of `line` with the innermost scope of each (as its
/// dot-separated string), when the default syntax for `lang` has already
/// parsed the lines `before`, from a fresh parser and an empty scope stack.
pub uninterp spec fn line_regions(lang: Seq<char>, before: Seq<Seq<char>>, line: Seq<char>) -> Seq<
    (Seq<char>, Option<Seq<char>>),
>;

/// `SyntaxSet::find_syntax_by_token` from `syntect` on the default
/// syntaxes: the syntax that a fence's language token names, if any.
#[verifier::external_body]
fn find_syntax<'a>(ss: &'a Syntaxes, lang: &str) -> (r: Option<&'a SyntaxReference>)
    ensures
        r is Some <==> syntax_found(lang@),
{
    ss.set.find_syntax_by_token(lang)
}

/// `ParseState::new` from `syntect`: a parser at the start of a document
/// of the given syntax.
#[verifier::external_body]
fn new_parse_state(syntax: &SyntaxReference) -> (r: ParseState) {
    ParseState::new(syntax)
}

/// `ScopeStack::new` from `syntect`: an empty scope stack.
#[verifier::external_body]
fn new_scope_stack() -> (r: ScopeStack) {
    ScopeStack::new()
}

/// A parser for one code block: the default syntax for its language, the
/// set that syntax belongs to, the scope stack, and the lines parsed so far.
/// Only [`CodeParser::for_lang`] makes one, always pairing the state with
/// the set its syntax came from.
pub struct CodeParser<'a> {
    set: &'a SyntaxSet,
    state: ParseState,
    stack: ScopeStack,
    lang: String,
    before: Vec<String>,
}

/// The lines a parser has parsed, in order.
pub open spec fn lines_seen(before: Seq<String>) -> Seq<Seq<char>> {
    before.map_values(|l: String| l@)
}

/// `ParseState::parse_line` (a parsing error gives no operations), then
/// `ScopeRegionIterator` over the operations with `ScopeStack::apply` on
/// each (an invalid one is ignored) and the innermost scope of the stack
/// (`ScopeStack::as_slice`, `Scope::build_string`), from `syntect`. The
/// state is parsed with the set its syntax came from. The regions are named;
/// since the operations come in order of their byte index (as
/// `parse_line` documents) and fall where a match starts or ends, the
/// regions, in order, make up the line.
#[verifier::external_body]
fn line_scopes(p: &mut CodeParser, line: &str) -> (r: Vec<(String, Option<String>)>)
    ensures
        r@.map_values(|x: (String, Option<String>)| region_view(x)) == line_regions(
            old(p).lang@,
            lines_seen(old(p).before@),
            line@,
        ),
        concat(r@.map_values(|x: (String, Option<String>)| x.0@)) == line@,
        final(p).lang == old(p).lang,
        final(p).before == old(p).before,
{
    let ops = p.state.parse_line(line, p.set).unwrap_or_default();
    let stack = &mut p.stack;
    syntect::easy::ScopeRegionIterator::new(&ops, line).map(|(s, op)| {
        let _ = stack.apply(op);
        (s.to_string(), stack.as_slice().last().map(|sc| sc.build_string()))
    }).collect()
}

/// A region with its text and scope as characters.
pub open spec fn region_view(x: (String, Option<String>)) -> (Seq<char>, Option<Seq<char>>) {
    (x.0@, match x.1 {
        None => None,
        Some(s) => Some(s@),
    })
}

impl<'a> CodeParser<'a> {
    /// The language the parser was made for.
    pub closed spec fn lang(&self) -> Seq<char> {
        self.lang@
    }

    /// The lines parsed so far.
    pub closed spec fn seen(&self) -> Seq<Seq<char>> {
        lines_seen(self.before@)
    }

    /// A parser for the default syntax of `lang`, if there is one.
    pub fn for_lang(ss: &'a Syntaxes, lang: &str) -> (r: Option<CodeParser<'a>>)
        ensures
            r is Some <==> syntax_found(lang@),
            r matches Some(p) ==> p.lang() == lang@ && p.seen().len() == 0,
    {
        match find_syntax(ss, lang) {
            None => None,
            Some(syntax) => {
                let p = CodeParser {
                    set: &ss.set,
                    state: new_parse_state(syntax),
                    stack: new_scope_stack(),
                    lang: lit(lang),
                    before: Vec::new(),
                };
                assert(lines_seen(p.before@) =~= Seq::<Seq<char>>::empty());
                Some(p)
            },
        }
    }

    /// Parses the next line (with its ending): its regions and their
    /// innermost scopes, which make up the line.
    pub fn next_line(&mut self, line: &str) -> (r: Vec<(String, Option<String>)>)
        ensures
            r@.map_values(|x: (String, Option<String>)| region_view(x)) == line_regions(old(self).lang(), old(self).seen(), line@),
            concat(r@.map_values(|x: (String, Option<String>)| x.0@)) == line@,
            final(self).lang() == old(self).lang(),
            final(self).seen() == old(self).seen().push(line@),
    {
        let r = line_scopes(self, line);
        let ghost b0 = self.before@;
        self.before.push(lit(line));
        assert(lines_seen(self.before@) =~= lines_seen(b0).push(line@));
        r
    }
}

/// The spans of one line from its regions.
pub fn spans_of_regions(rs: &Vec<(String, Option<String>)>) -> (r: Vec<Span>)
    ensures
        spans_view(r@) == region_spans(rs@.map_values(|x: (String, Option<String>)| region_view(x))),
{
    let ghost rv = rs@.map_values(|x: (String, Option<String>)| region_view(x));
    let mut out: Vec<Span> = Vec::new();
    let mut i: usize = 0;
    assert(rv.take(0) =~= Seq::<(Seq<char>, Option<Seq<char>>)>::empty());
    while i < rs.len()
        invariant
            i <= rs.len(),
            rv == rs@.map_values(|x: (String, Option<String>)| region_view(x)),
            spans_view(out@) == region_spans(rv.take(i as int)),
        decreases rs.len() - i,
    {
        assert(rv.take(i + 1).drop_last() =~= rv.take(i as int));
        assert(rv.take(i + 1).last() == rv[i as int]);
        if !rs[i].0.as_str().is_empty() {
            let style = match &rs[i].1 {
                None => scope_to_style(None),
                Some(sc) => scope_to_style(Some(sc.as_str())),
            };
            let t = trim_newlines_of(&rs[i].0);
            let ghost before = out@;
            out.push(span(t, style));
            assert(spans_view(out@) =~= spans_view(before).push((t@, style)));
        }
        i = i + 1;
    }
    assert(rv.take(rs.len() as int) =~= rv);
    out
}

/// The code shown without highlighting.
pub fn plain_code(code: &str) -> (r: Vec<Vec<Span>>)
    ensures
        lines_view(r@) == plain_code_lines(code@),
{
    let ls = lines_of(code);
    let ghost lv = ls@.map_values(|l: String| l@);
    let mut out: Vec<Vec<Span>> = Vec::new();
    let mut i: usize = 0;
    while i < ls.len()
        invariant
            i <= ls.len(),
            lv == ls@.map_values(|l: String| l@),
            lv == lines_spec(code@),
            lines_view(out@) == lv.take(i as int).map_values(|l: Seq<char>| seq![(l, plain())]),
        decreases ls.len() - i,
    {
        let mut line: Vec<Span> = Vec::new();
        line.push(span(copy_string(&ls[i]), plain_style()));
        assert(spans_view(line@) =~= seq![(lv[i as int], plain())]);
        let ghost before = out@;
        out.push(line);
        assert(lines_view(out@) =~= lines_view(before).push(seq![(lv[i as int], plain())]));
        assert(lv.take(i + 1) =~= lv.take(i as int).push(lv[i as int]));
        i = i + 1;
    }
    assert(lv.take(ls.len() as int) =~= lv);
    out
}

/// Highlighted lines of `code` show, line by line, the text of its lines
/// with their endings, without the newline.
pub open spec fn highlighted_text(code: Seq<char>, lines: Seq<Seq<SView>>) -> bool {
    &&& lines.len() == lines_with_endings_spec(code).len()
    &&& forall|i: int| 0 <= i < lines.len() ==> line_text(#[trigger] lines[i]) == trim_newlines(
        lines_with_endings_spec(code)[i],
    )
}

/// The lines of `code` highlighted in `lang`: each line (with its ending)
/// split into the regions the default syntax gives it after the lines
/// before it, as spans styled by their innermost scope.
pub open spec fn highlighted_lines(lang: Seq<char>, code: Seq<char>) -> Seq<Seq<SView>> {
    let ls = lines_with_endings_spec(code);
    Seq::new(ls.len(), |i: int| region_spans(line_regions(lang, ls.take(i), ls[i])))
}

/// The lines a code block shows: plain with no language or one the default
/// syntaxes do not know, highlighted otherwise.
pub open spec fn code_block_lines(lang: Seq<char>, code: Seq<char>) -> Seq<Seq<SView>> {
    if lang.len() == 0 || !syntax_found(lang) {
        plain_code_lines(code)
    } else {
        highlighted_lines(lang, code)
    }
}

/// Highlights a code block: with no language, or one the default syntaxes
/// do not know, every line is one plain span; otherwise each line (with
/// its ending) is parsed in turn and split into regions styled by the
/// innermost scope, empty regions dropped and newlines trimmed, so that
/// each line shows its own text.
pub fn highlight_code(code: &str, lang: &str, ss: &Syntaxes) -> (r: Vec<Vec<Span>>)
    ensures
        lines_view(r@) == code_block_lines(lang@, code@),
        lang@.len() > 0 && syntax_found(lang@) ==> highlighted_text(code@, lines_view(r@)),
{
    if lang.is_empty() {
        return plain_code(code);
    }
    match CodeParser::for_lang(ss, lang) {
        None => plain_code(code),
        Some(parser) => {
            let mut parser = parser;
            let lines = lines_with_endings(code);
            let ghost lw = lines_with_endings_spec(code@);
            proof {
                lemma_line_endings(code@);
                assert(lines@.map_values(|l: String| l@).len() == lines@.len());
                assert(lw.take(0) =~= Seq::<Seq<char>>::empty());
            }
            let mut out: Vec<Vec<Span>> = Vec::new();
            let mut i: usize = 0;
            while i < lines.len()
                invariant
                    i <= lines.len(),
                    out@.len() == i,
                    lw == lines_with_endings_spec(code@),
                    lines@.map_values(|l: String| l@) == lw,
                    parser.lang() == lang@,
                    parser.seen() == lw.take(i as int),
                    forall|k: int| 0 <= k < lw.len() ==> newline_only_at_end(#[trigger] lw[k]),
                    forall|k: int| 0 <= k < i ==> line_text(#[trigger] lines_view(out@)[k]) == trim_newlines(lw[k]),
                    forall|k: int| 0 <= k < i ==> #[trigger] lines_view(out@)[k] == region_spans(
                        line_regions(lang@, lw.take(k), lw[k]),
                    ),
                decreases lines.len() - i,
            {
                let line = lines[i].as_str();
                assert(line@ == lw[i as int]);
                let regions = parser.next_line(line);
                let ghost rv = regions@.map_values(|x: (String, Option<String>)| region_view(x));
                proof {
                    assert(rv.map_values(|x: (Seq<char>, Option<Seq<char>>)| x.0) =~= regions@.map_values(
                        |x: (String, Option<String>)| x.0@,
                    ));
                    lemma_region_text(rv, line@);
                    assert(lw.take(i + 1) =~= lw.take(i as int).push(lw[i as int]));
                }
                let spans = spans_of_regions(&regions);
                let ghost before = out@;
                out.push(spans);
                proof {
                    assert forall|k: int| 0 <= k < i + 1 implies line_text(#[trigger] lines_view(out@)[k]) == trim_newlines(lw[k]) by {
                        if k < i {
                            assert(lines_view(out@)[k] == lines_view(before)[k]);
                        }
                    }
                    assert forall|k: int| 0 <= k < i + 1 implies #[trigger] lines_view(out@)[k] == region_spans(
                        line_regions(lang@, lw.take(k), lw[k]),
                    ) by {
                        if k < i {
                            assert(lines_view(out@)[k] == lines_view(before)[k]);
                        }
                    }
                }
                i = i + 1;
            }
            proof {
                assert(lines_view(out@) =~= highlighted_lines(lang@, code@));
            }
            out
        },
    }
}

} // verus!

//! Type paths: `package::module::struct`, with or without generic arguments.
//!
//! The grammar, over the four delimiters `:`, `<`, `>` and `,`:
//!
//! ```text
//! path     := name "::" name "::" segment
//! segment  := name | name "<" list ">"
//! list     := term | term "," list
//! term     := path | segment
//! name     := one or more characters, none of them a delimiter
//! ```
//!
//! A list is cut at its top-level commas only: a comma between angle brackets
//! belongs to the argument that holds it. Nothing is trimmed, so that a path
//! can be put together again from its parts, character for character.

use vstd::prelude::*;
use crate::chars::chars_of;
use crate::error::MalformedRecord;

verus! {

/// A type path, taken apart.
#[derive(Debug, PartialEq, Eq)]
pub struct SuiIndexedType {
    /// The path as it was written.
    pub full: String,
    pub package: String,
    pub module: String,
    pub struct_: String,
    /// The top-level generic arguments, in order; empty when the struct
    /// segment has no argument list.
    pub generics: Vec<String>,
}

/// The mathematical value of a [`SuiIndexedType`].
pub struct TypePath {
    pub full: Seq<char>,
    pub package: Seq<char>,
    pub module: Seq<char>,
    pub struct_: Seq<char>,
    pub generics: Seq<Seq<char>>,
}

/// The texts that a sequence of strings holds.
pub open spec fn texts(strings: Seq<String>) -> Seq<Seq<char>> {
    Seq::new(strings.len(), |i: int| strings[i]@)
}

impl View for SuiIndexedType {
    type V = TypePath;

    open spec fn view(&self) -> TypePath {
        TypePath {
            full: self.full@,
            package: self.package@,
            module: self.module@,
            struct_: self.struct_@,
            generics: texts(self.generics@),
        }
    }
}

/// A copy of each string of `strings`, in order.
pub fn clone_strings(strings: &Vec<String>) -> (out: Vec<String>)
    ensures
        texts(out@) == texts(strings@),
{
    let mut out: Vec<String> = Vec::new();
    let mut i: usize = 0;
    while i < strings.len()
        invariant
            i <= strings.len(),
            out.len() == i,
            forall|j: int| 0 <= j < i ==> out@[j]@ == strings@[j]@,
        decreases strings.len() - i,
    {
        out.push(strings[i].clone());
        i += 1;
    }
    proof {
        assert(texts(out@) =~= texts(strings@));
    }
    out
}

impl Clone for SuiIndexedType {
    fn clone(&self) -> (out: Self)
        ensures
            out@ == self@,
    {
        SuiIndexedType {
            full: self.full.clone(),
            package: self.package.clone(),
            module: self.module.clone(),
            struct_: self.struct_.clone(),
            generics: clone_strings(&self.generics),
        }
    }
}

/// The characters that give a type path its structure.
pub open spec fn is_delimiter(c: char) -> bool {
    c == ':' || c == '<' || c == '>' || c == ','
}

/// The first index at or after `from` that holds a delimiter, or the end of
/// the text when there is none.
pub open spec fn first_delimiter(t: Seq<char>, from: int) -> int
    decreases t.len() - from,
{
    if 0 <= from < t.len() && !is_delimiter(t[from]) {
        first_delimiter(t, from + 1)
    } else {
        from
    }
}

/// The module separator `::` stands at index `i`.
pub open spec fn separator_at(t: Seq<char>, i: int) -> bool {
    0 <= i && i + 1 < t.len() && t[i] == ':' && t[i + 1] == ':'
}

/// What a character adds to the bracket depth.
pub open spec fn bracket_step(c: char) -> int {
    if c == '<' {
        1
    } else if c == '>' {
        -1
    } else {
        0
    }
}

/// Opening minus closing angle brackets among the first `k` characters.
pub open spec fn depth_before(t: Seq<char>, k: int) -> int
    decreases k,
{
    if k <= 0 {
        0
    } else {
        depth_before(t, k - 1) + bracket_step(t[k - 1])
    }
}

/// Index `k` holds a comma that no angle bracket encloses.
pub open spec fn is_top_comma(t: Seq<char>, k: int) -> bool {
    0 <= k < t.len() && t[k] == ',' && depth_before(t, k) == 0
}

/// The first index at or after `from` that holds a top-level comma, or the
/// end of the text when there is none.
pub open spec fn first_top_comma(t: Seq<char>, from: int) -> int
    decreases t.len() - from,
{
    if 0 <= from < t.len() && !is_top_comma(t, from) {
        first_top_comma(t, from + 1)
    } else {
        from
    }
}

/// `t` is a name, alone or followed by a bracketed argument list.
pub open spec fn is_segment(t: Seq<char>) -> bool
    decreases t.len(), 0int,
{
    let a = first_delimiter(t, 0);
    a > 0 && (a == t.len() || (a + 1 < t.len() && t[a] == '<' && t.last() == '>' && is_list(
        t.subrange(a + 1, t.len() - 1),
    )))
}

/// `t` is a segment, alone or qualified by a package and a module.
pub open spec fn is_term(t: Seq<char>) -> bool
    decreases t.len(), 1int,
{
    let a = first_delimiter(t, 0);
    if separator_at(t, a) {
        is_qualified(t)
    } else {
        is_segment(t)
    }
}

/// `t` starts with a package and a module, each followed by `::`.
pub open spec fn has_qualifier(t: Seq<char>) -> bool {
    let a = first_delimiter(t, 0);
    let b = first_delimiter(t, a + 2);
    a > 0 && separator_at(t, a) && b > a + 2 && separator_at(t, b)
}

/// What follows the package and the module of a qualified text.
pub open spec fn after_qualifier(t: Seq<char>) -> Seq<char> {
    t.subrange(first_delimiter(t, first_delimiter(t, 0) + 2) + 2, t.len() as int)
}

/// `t` is a package, a module and a segment, joined by `::`.
pub open spec fn is_qualified(t: Seq<char>) -> bool
    decreases t.len(), 0int,
{
    has_qualifier(t) && is_segment(after_qualifier(t))
}

/// `t` is one term, or several with a top-level comma between each two.
pub open spec fn is_list(t: Seq<char>) -> bool
    decreases t.len(), 2int,
{
    let k = first_top_comma(t, 0);
    if 0 <= k < t.len() {
        is_term(t.subrange(0, k)) && is_list(t.subrange(k + 1, t.len() as int))
    } else {
        is_term(t)
    }
}

/// The text is a type path: a term that names its package and module.
pub open spec fn is_type_path(s: Seq<char>) -> bool {
    is_qualified(s)
}

/// The pieces between the top-level commas of `t`.
pub open spec fn split_top(t: Seq<char>) -> Seq<Seq<char>>
    decreases t.len(),
{
    let k = first_top_comma(t, 0);
    if 0 <= k < t.len() {
        seq![t.subrange(0, k)] + split_top(t.subrange(k + 1, t.len() as int))
    } else {
        seq![t]
    }
}

/// The name that a segment starts with.
pub open spec fn segment_name(seg: Seq<char>) -> Seq<char> {
    seg.subrange(0, first_delimiter(seg, 0))
}

/// The top-level arguments of a segment; none when it has no list.
pub open spec fn segment_arguments(seg: Seq<char>) -> Seq<Seq<char>> {
    let c = first_delimiter(seg, 0);
    if c + 1 < seg.len() {
        split_top(seg.subrange(c + 1, seg.len() - 1))
    } else {
        Seq::empty()
    }
}

/// The parts of a type path. It says what they are for a text that
/// [`is_type_path`] accepts.
pub open spec fn type_path_of(s: Seq<char>) -> TypePath {
    let a = first_delimiter(s, 0);
    let b = first_delimiter(s, a + 2);
    TypePath {
        full: s,
        package: s.subrange(0, a),
        module: s.subrange(a + 2, b),
        struct_: segment_name(after_qualifier(s)),
        generics: segment_arguments(after_qualifier(s)),
    }
}

/// The parts of a list with a comma between each two.
pub open spec fn join_commas(parts: Seq<Seq<char>>) -> Seq<char>
    decreases parts.len(),
{
    if parts.len() == 0 {
        Seq::empty()
    } else if parts.len() == 1 {
        parts[0]
    } else {
        parts[0] + seq![','] + join_commas(parts.drop_first())
    }
}

/// A segment written out from its name and its arguments.
pub open spec fn render_segment(name: Seq<char>, arguments: Seq<Seq<char>>) -> Seq<char> {
    if arguments.len() == 0 {
        name
    } else {
        name + seq!['<'] + join_commas(arguments) + seq!['>']
    }
}

/// A type path written out from its parts.
pub open spec fn render(p: TypePath) -> Seq<char> {
    p.package + seq![':', ':'] + p.module + seq![':', ':'] + render_segment(
        p.struct_,
        p.generics,
    )
}

proof fn lemma_first_delimiter(t: Seq<char>, from: int, end: int)
    requires
        0 <= from <= end <= t.len(),
        forall|j: int| from <= j < end ==> !is_delimiter(t[j]),
        end < t.len() ==> is_delimiter(t[end]),
    ensures
        first_delimiter(t, from) == end,
    decreases end - from,
{
    if from < end {
        lemma_first_delimiter(t, from + 1, end);
    }
}

proof fn lemma_first_top_comma(t: Seq<char>, from: int, end: int)
    requires
        0 <= from <= end <= t.len(),
        forall|j: int| from <= j < end ==> !is_top_comma(t, j),
        end < t.len() ==> is_top_comma(t, end),
    ensures
        first_top_comma(t, from) == end,
    decreases end - from,
{
    if from < end {
        lemma_first_top_comma(t, from + 1, end);
    }
}

proof fn lemma_first_delimiter_found(t: Seq<char>, from: int)
    requires
        0 <= from <= t.len(),
    ensures
        from <= first_delimiter(t, from) <= t.len(),
        first_delimiter(t, from) < t.len() ==> is_delimiter(t[first_delimiter(t, from)]),
        forall|j: int| from <= j < first_delimiter(t, from) ==> !is_delimiter(t[j]),
    decreases t.len() - from,
{
    if from < t.len() && !is_delimiter(t[from]) {
        lemma_first_delimiter_found(t, from + 1);
    }
}

proof fn lemma_first_top_comma_found(t: Seq<char>, from: int)
    requires
        0 <= from <= t.len(),
    ensures
        from <= first_top_comma(t, from) <= t.len(),
        first_top_comma(t, from) < t.len() ==> is_top_comma(t, first_top_comma(t, from)),
        forall|j: int| from <= j < first_top_comma(t, from) ==> !is_top_comma(t, j),
    decreases t.len() - from,
{
    if from < t.len() && !is_top_comma(t, from) {
        lemma_first_top_comma_found(t, from + 1);
    }
}

proof fn lemma_split_top_len(t: Seq<char>)
    ensures
        split_top(t).len() >= 1,
{
}

proof fn lemma_join_split(t: Seq<char>)
    ensures
        join_commas(split_top(t)) == t,
    decreases t.len(),
{
    let k = first_top_comma(t, 0);
    lemma_first_top_comma_found(t, 0);
    if 0 <= k < t.len() {
        let rest = t.subrange(k + 1, t.len() as int);
        let parts = split_top(t);
        lemma_join_split(rest);
        lemma_split_top_len(rest);
        assert(parts.drop_first() =~= split_top(rest));
        assert(t =~= t.subrange(0, k) + seq![','] + rest);
    }
}

proof fn lemma_segment_reconstruct(seg: Seq<char>)
    requires
        is_segment(seg),
    ensures
        render_segment(segment_name(seg), segment_arguments(seg)) == seg,
{
    let c = first_delimiter(seg, 0);
    lemma_first_delimiter_found(seg, 0);
    if c == seg.len() {
        assert(seg.subrange(0, c) =~= seg);
    } else {
        let inner = seg.subrange(c + 1, seg.len() - 1);
        lemma_join_split(inner);
        lemma_split_top_len(inner);
        assert(seg =~= seg.subrange(0, c) + seq!['<'] + inner + seq!['>']);
    }
}

/// Writing out the parts of a parsed type path gives back the text that was
/// parsed, character for character.
pub proof fn law_reconstruct(s: Seq<char>)
    requires
        is_type_path(s),
    ensures
        render(type_path_of(s)) == s,
        type_path_of(s).full == s,
{
    let a = first_delimiter(s, 0);
    let b = first_delimiter(s, a + 2);
    let seg = after_qualifier(s);
    lemma_segment_reconstruct(seg);
    assert(s =~= s.subrange(0, a) + seq![':', ':'] + s.subrange(a + 2, b) + seq![':', ':'] + seg);
}

proof fn lemma_depth_of_prefix(t: Seq<char>, k: int, j: int)
    requires
        0 <= j <= k <= t.len(),
    ensures
        depth_before(t.subrange(0, k), j) == depth_before(t, j),
    decreases j,
{
    if j > 0 {
        lemma_depth_of_prefix(t, k, j - 1);
    }
}

proof fn lemma_list_pieces(t: Seq<char>, i: int)
    requires
        is_list(t),
        0 <= i < split_top(t).len(),
    ensures
        is_term(split_top(t)[i]),
        first_top_comma(split_top(t)[i], 0) == split_top(t)[i].len(),
    decreases t.len(),
{
    let k = first_top_comma(t, 0);
    lemma_first_top_comma_found(t, 0);
    if 0 <= k < t.len() {
        if i == 0 {
            let piece = t.subrange(0, k);
            assert forall|j: int| 0 <= j < piece.len() implies !is_top_comma(piece, j) by {
                lemma_depth_of_prefix(t, k, j);
                assert(piece[j] == t[j]);
                assert(!is_top_comma(t, j));
            }
            lemma_first_top_comma(piece, 0, k);
        } else {
            let rest = t.subrange(k + 1, t.len() as int);
            lemma_list_pieces(rest, i - 1);
            assert(split_top(t)[i] == split_top(rest)[i - 1]);
        }
    }
}

/// Every generic argument of a parsed type path is one whole term: a nested
/// path or a plain segment with its own brackets closed, and with no
/// top-level comma left inside. A comma between the angle brackets of an
/// argument therefore never cuts it.
pub proof fn law_arguments_are_terms(s: Seq<char>, i: int)
    requires
        is_type_path(s),
        0 <= i < type_path_of(s).generics.len(),
    ensures
        is_term(type_path_of(s).generics[i]),
        first_top_comma(type_path_of(s).generics[i], 0) == type_path_of(s).generics[i].len(),
{
    let seg = after_qualifier(s);
    let c = first_delimiter(seg, 0);
    lemma_list_pieces(seg.subrange(c + 1, seg.len() - 1), i);
}


/// The text holds an opening angle bracket exactly when the parsed path has
/// generic arguments: a path without an argument list has none.
pub proof fn law_generics_present(s: Seq<char>)
    requires
        is_type_path(s),
    ensures
        type_path_of(s).generics.len() > 0 <==> s.contains('<'),
{
    let a = first_delimiter(s, 0);
    let b = first_delimiter(s, a + 2);
    let seg = after_qualifier(s);
    let c = first_delimiter(seg, 0);
    lemma_first_delimiter_found(s, 0);
    lemma_first_delimiter_found(s, a + 2);
    lemma_first_delimiter_found(seg, 0);
    if c == seg.len() {
        assert forall|j: int| 0 <= j < s.len() implies s[j] != '<' by {
            if j >= b + 2 {
                assert(seg[j - (b + 2)] == s[j]);
            }
        }
    } else {
        lemma_split_top_len(seg.subrange(c + 1, seg.len() - 1));
        assert(s[b + 2 + c] == seg[c]);
    }
}

/// `t` is a name: it is not empty and holds no delimiter.
pub open spec fn is_name(t: Seq<char>) -> bool {
    t.len() > 0 && first_delimiter(t, 0) == t.len()
}

/// The parts are those of some type path: the package, the module and the
/// struct are names, every generic argument is a term of its own without a
/// top-level comma, and the full text is the parts written out.
pub open spec fn parts_well_formed(p: TypePath) -> bool {
    &&& is_name(p.package)
    &&& is_name(p.module)
    &&& is_name(p.struct_)
    &&& forall|i: int|
        0 <= i < p.generics.len() ==> is_term(#[trigger] p.generics[i]) && first_top_comma(
            p.generics[i],
            0,
        ) == p.generics[i].len()
    &&& p.full == render(p)
}

proof fn lemma_depth_agrees(a: Seq<char>, b: Seq<char>, k: int)
    requires
        0 <= k <= a.len(),
        k <= b.len(),
        forall|j: int| 0 <= j < k ==> a[j] == b[j],
    ensures
        depth_before(a, k) == depth_before(b, k),
    decreases k,
{
    if k > 0 {
        lemma_depth_agrees(a, b, k - 1);
    }
}

proof fn lemma_depth_flat(t: Seq<char>, from: int, to: int)
    requires
        0 <= from <= to <= t.len(),
        forall|j: int| from <= j < to ==> bracket_step(t[j]) == 0,
    ensures
        depth_before(t, to) == depth_before(t, from),
    decreases to - from,
{
    if from < to {
        lemma_depth_flat(t, from, to - 1);
    }
}

proof fn lemma_depth_shift(t: Seq<char>, from: int, k: int)
    requires
        0 <= from,
        0 <= k,
        from + k <= t.len(),
    ensures
        depth_before(t, from + k) == depth_before(t, from) + depth_before(
            t.subrange(from, t.len() as int),
            k,
        ),
    decreases k,
{
    if k > 0 {
        lemma_depth_shift(t, from, k - 1);
        assert(t.subrange(from, t.len() as int)[k - 1] == t[from + k - 1]);
    }
}

proof fn lemma_segment_balanced(t: Seq<char>)
    requires
        is_segment(t),
    ensures
        depth_before(t, t.len() as int) == 0,
    decreases t.len(), 0int,
{
    let a = first_delimiter(t, 0);
    lemma_first_delimiter_found(t, 0);
    lemma_depth_flat(t, 0, a);
    if a < t.len() {
        let inner = t.subrange(a + 1, t.len() - 1);
        lemma_list_balanced(inner);
        lemma_depth_shift(t, a + 1, inner.len() as int);
        lemma_depth_agrees(t.subrange(a + 1, t.len() as int), inner, inner.len() as int);
        assert(depth_before(t, a + 1) == depth_before(t, a) + 1);
        assert(depth_before(t, t.len() as int) == depth_before(t, t.len() - 1) - 1);
    }
}

proof fn lemma_qualified_balanced(t: Seq<char>)
    requires
        is_qualified(t),
    ensures
        depth_before(t, t.len() as int) == 0,
    decreases t.len(), 0int,
{
    let a = first_delimiter(t, 0);
    let b = first_delimiter(t, a + 2);
    let seg = after_qualifier(t);
    lemma_first_delimiter_found(t, 0);
    lemma_first_delimiter_found(t, a + 2);
    lemma_depth_flat(t, 0, b + 2);
    lemma_segment_balanced(seg);
    lemma_depth_shift(t, b + 2, seg.len() as int);
}

proof fn lemma_term_balanced(t: Seq<char>)
    requires
        is_term(t),
    ensures
        depth_before(t, t.len() as int) == 0,
    decreases t.len(), 1int,
{
    if separator_at(t, first_delimiter(t, 0)) {
        lemma_qualified_balanced(t);
    } else {
        lemma_segment_balanced(t);
    }
}

proof fn lemma_list_balanced(t: Seq<char>)
    requires
        is_list(t),
    ensures
        depth_before(t, t.len() as int) == 0,
    decreases t.len(), 2int,
{
    let k = first_top_comma(t, 0);
    lemma_first_top_comma_found(t, 0);
    if 0 <= k < t.len() {
        let rest = t.subrange(k + 1, t.len() as int);
        lemma_list_balanced(rest);
        lemma_depth_shift(t, k + 1, rest.len() as int);
        assert(depth_before(t, k + 1) == depth_before(t, k));
    } else {
        lemma_term_balanced(t);
    }
}

proof fn lemma_split_join(parts: Seq<Seq<char>>)
    requires
        parts.len() >= 1,
        forall|i: int|
            0 <= i < parts.len() ==> is_term(#[trigger] parts[i]) && first_top_comma(parts[i], 0)
                == parts[i].len(),
    ensures
        split_top(join_commas(parts)) == parts,
        is_list(join_commas(parts)),
    decreases parts.len(),
{
    let first = parts[0];
    assert(is_term(first) && first_top_comma(first, 0) == first.len());
    if parts.len() == 1 {
        assert(split_top(first) =~= parts);
    } else {
        let rest = parts.drop_first();
        assert forall|i: int| 0 <= i < rest.len() implies is_term(#[trigger] rest[i])
            && first_top_comma(rest[i], 0) == rest[i].len() by {
            assert(rest[i] == parts[i + 1]);
        }
        lemma_split_join(rest);
        let tail = join_commas(rest);
        let joined = join_commas(parts);
        assert(joined == first + seq![','] + tail);
        let k = first.len() as int;
        lemma_first_top_comma_found(first, 0);
        lemma_term_balanced(first);
        assert forall|j: int| 0 <= j < k implies !is_top_comma(joined, j) by {
            lemma_depth_agrees(joined, first, j);
            assert(joined[j] == first[j]);
            assert(!is_top_comma(first, j));
        }
        lemma_depth_agrees(joined, first, k);
        assert(joined[k] == ',');
        assert(is_top_comma(joined, k));
        lemma_first_top_comma(joined, 0, k);
        assert(joined.subrange(0, k) =~= first);
        assert(joined.subrange(k + 1, joined.len() as int) =~= tail);
        assert(split_top(joined) =~= parts);
    }
}

proof fn lemma_name_in_text(s: Seq<char>, from: int, name: Seq<char>)
    requires
        is_name(name),
        0 <= from,
        from + name.len() <= s.len(),
        s.subrange(from, from + name.len()) == name,
        from + name.len() < s.len() ==> is_delimiter(s[from + name.len()]),
    ensures
        first_delimiter(s, from) == from + name.len(),
{
    lemma_first_delimiter_found(name, 0);
    assert forall|j: int| from <= j < from + name.len() implies !is_delimiter(s[j]) by {
        assert(s[j] == name[j - from]);
    }
    lemma_first_delimiter(s, from, from + name.len());
}

/// Parsing what well-formed parts write out gives those parts back. With
/// [`law_reconstruct`] this makes parsing and writing out each other's
/// inverse: a text has at most one reading, and parts have one text.
pub proof fn law_parse_rendered(p: TypePath)
    requires
        parts_well_formed(p),
    ensures
        is_type_path(p.full),
        type_path_of(p.full) == p,
{
    let sep = seq![':', ':'];
    let seg = render_segment(p.struct_, p.generics);
    let s = p.package + sep + p.module + sep + seg;
    assert(s == p.full);
    let a = p.package.len() as int;
    let b = a + 2 + p.module.len();
    lemma_first_delimiter_found(p.struct_, 0);
    assert(seg.len() >= p.struct_.len());
    assert(s.subrange(0, a) =~= p.package);
    assert(s[a] == ':' && s[a + 1] == ':');
    lemma_name_in_text(s, 0, p.package);
    assert(s.subrange(a + 2, b) =~= p.module);
    assert(s[b] == ':' && s[b + 1] == ':');
    lemma_name_in_text(s, a + 2, p.module);
    assert(after_qualifier(s) =~= seg);
    let c = p.struct_.len() as int;
    assert(seg.subrange(0, c) =~= p.struct_);
    if p.generics.len() == 0 {
        lemma_name_in_text(seg, 0, p.struct_);
        assert(segment_arguments(seg) =~= p.generics);
    } else {
        let inner = join_commas(p.generics);
        assert(seg == p.struct_ + seq!['<'] + inner + seq!['>']);
        assert(seg[c] == '<');
        lemma_name_in_text(seg, 0, p.struct_);
        lemma_split_join(p.generics);
        assert(seg.subrange(c + 1, seg.len() - 1) =~= inner);
        assert(seg.last() == '>');
    }
}

/// The parts of a parsed type path are well formed.
pub proof fn law_parsed_parts(s: Seq<char>)
    requires
        is_type_path(s),
    ensures
        parts_well_formed(type_path_of(s)),
{
    let p = type_path_of(s);
    let a = first_delimiter(s, 0);
    let b = first_delimiter(s, a + 2);
    let seg = after_qualifier(s);
    let c = first_delimiter(seg, 0);
    law_reconstruct(s);
    lemma_first_delimiter_found(s, 0);
    lemma_first_delimiter_found(s, a + 2);
    lemma_first_delimiter_found(seg, 0);
    lemma_first_delimiter(p.package, 0, a);
    lemma_first_delimiter(p.module, 0, b - (a + 2));
    lemma_first_delimiter(p.struct_, 0, c);
    assert forall|i: int| 0 <= i < p.generics.len() implies is_term(#[trigger] p.generics[i])
        && first_top_comma(p.generics[i], 0) == p.generics[i].len() by {
        law_arguments_are_terms(s, i);
    }
}

proof fn lemma_join_push(parts: Seq<Seq<char>>, last: Seq<char>)
    requires
        parts.len() > 0,
    ensures
        join_commas(parts.push(last)) == join_commas(parts) + seq![','] + last,
    decreases parts.len(),
{
    let all = parts.push(last);
    assert(all.drop_first() =~= parts.drop_first().push(last));
    if parts.len() == 1 {
        assert(all.drop_first() =~= seq![last]);
        assert(join_commas(all.drop_first()) == last);
    } else {
        lemma_join_push(parts.drop_first(), last);
        assert(join_commas(all) =~= join_commas(parts) + seq![','] + last);
    }
}

impl SuiIndexedType {
    /// The path written out from its parts: for a parsed path, the text that
    /// was parsed.
    pub fn to_text(&self) -> (out: String)
        ensures
            out@ == render(self@),
    {
        let mut out = self.package.clone();
        proof {
            reveal_strlit("::");
            reveal_strlit("<");
            reveal_strlit(">");
            reveal_strlit(",");
        }
        out.append("::");
        out.append(self.module.as_str());
        out.append("::");
        out.append(self.struct_.as_str());
        let ghost head = out@;
        let ghost parts = texts(self.generics@);
        proof {
            assert(head =~= self.package@ + seq![':', ':'] + self.module@ + seq![':', ':']
                + self.struct_@);
        }
        if self.generics.len() > 0 {
            out.append("<");
            out.append(self.generics[0].as_str());
            proof {
                assert(parts.take(1) =~= seq![parts[0]]);
                assert(out@ =~= head + seq!['<'] + join_commas(parts.take(1)));
            }
            let mut i: usize = 1;
            while i < self.generics.len()
                invariant
                    1 <= i <= self.generics.len(),
                    parts == texts(self.generics@),
                    out@ == head + seq!['<'] + join_commas(parts.take(i as int)),
                decreases self.generics.len() - i,
            {
                let ghost so_far = out@;
                out.append(",");
                out.append(self.generics[i].as_str());
                proof {
                    reveal_strlit(",");
                    assert(","@ =~= seq![',']);
                    assert(out@ =~= so_far + seq![','] + parts[i as int]);
                    lemma_join_push(parts.take(i as int), parts[i as int]);
                    assert(parts.take(i + 1) =~= parts.take(i as int).push(parts[i as int]));
                    assert(out@ =~= head + seq!['<'] + join_commas(parts.take(i + 1)));
                }
                i += 1;
            }
            out.append(">");
            proof {
                assert(parts.take(parts.len() as int) =~= parts);
                assert(out@ =~= self.package@ + seq![':', ':'] + self.module@ + seq![':', ':']
                    + (self.struct_@ + seq!['<'] + join_commas(parts) + seq!['>']));
            }
        } else {
            proof {
                assert(out@ =~= self.package@ + seq![':', ':'] + self.module@ + seq![':', ':']
                    + self.struct_@);
            }
        }
        out
    }
}

/// The end of the name that starts at `from` in `v[lo..hi]`.
fn scan_name(v: &Vec<char>, lo: usize, from: usize, hi: usize) -> (end: usize)
    requires
        lo <= from <= hi <= v.len(),
    ensures
        from <= end <= hi,
        end - lo == first_delimiter(v@.subrange(lo as int, hi as int), from - lo),
{
    let ghost t = v@.subrange(lo as int, hi as int);
    let mut end = from;
    while end < hi && !(v[end] == ':' || v[end] == '<' || v[end] == '>' || v[end] == ',')
        invariant
            lo <= from <= end <= hi <= v.len(),
            t == v@.subrange(lo as int, hi as int),
            forall|j: int| from - lo <= j < end - lo ==> !is_delimiter(t[j]),
        decreases hi - end,
    {
        end += 1;
    }
    proof {
        lemma_first_delimiter(t, from - lo, end - lo);
    }
    end
}

/// The first top-level comma of `v[lo..hi]`, or `hi`.
fn scan_top_comma(v: &Vec<char>, lo: usize, hi: usize) -> (end: usize)
    requires
        lo <= hi <= v.len(),
    ensures
        lo <= end <= hi,
        end - lo == first_top_comma(v@.subrange(lo as int, hi as int), 0),
{
    let ghost t = v@.subrange(lo as int, hi as int);
    let mut end = lo;
    let mut depth: i128 = 0;
    while end < hi && !(v[end] == ',' && depth == 0)
        invariant
            lo <= end <= hi <= v.len(),
            t == v@.subrange(lo as int, hi as int),
            depth == depth_before(t, end - lo),
            -(end - lo) <= depth <= end - lo,
            forall|j: int| 0 <= j < end - lo ==> !is_top_comma(t, j),
        decreases hi - end,
    {
        if v[end] == '<' {
            depth += 1;
        } else if v[end] == '>' {
            depth -= 1;
        }
        end += 1;
    }
    proof {
        lemma_first_top_comma(t, 0, end - lo);
    }
    end
}

/// The ends of the package and of the module at the start of `v[lo..hi]`,
/// when it starts with both.
fn scan_qualifier(v: &Vec<char>, lo: usize, hi: usize) -> (r: Option<(usize, usize)>)
    requires
        lo <= hi <= v.len(),
    ensures
        r is Some <==> has_qualifier(v@.subrange(lo as int, hi as int)),
        r matches Some((a, b)) ==> {
            let t = v@.subrange(lo as int, hi as int);
            &&& lo < a && a + 2 < b && b + 2 <= hi
            &&& a - lo == first_delimiter(t, 0)
            &&& b - lo == first_delimiter(t, a - lo + 2)
            &&& after_qualifier(t) == v@.subrange(b + 2, hi as int)
        },
{
    let ghost t = v@.subrange(lo as int, hi as int);
    let a = scan_name(v, lo, lo, hi);
    if !(a > lo && hi - a >= 2 && v[a] == ':' && v[a + 1] == ':') {
        return None;
    }
    let b = scan_name(v, lo, a + 2, hi);
    if !(b > a + 2 && hi - b >= 2 && v[b] == ':' && v[b + 1] == ':') {
        return None;
    }
    proof {
        assert(t.subrange(b + 2 - lo, t.len() as int) =~= v@.subrange(b + 2, hi as int));
    }
    Some((a, b))
}

/// What a stretch of text has yet to be shown to be.
#[derive(Clone, Copy)]
enum Claim {
    Segment,
    Term,
    List,
}

/// A stretch `lo..hi` of the text under examination, and what it has to be.
#[derive(Clone, Copy)]
struct Pending {
    claim: Claim,
    lo: usize,
    hi: usize,
}

impl Pending {
    spec fn in_bounds(self, v: Seq<char>) -> bool {
        self.lo <= self.hi <= v.len()
    }

    spec fn holds(self, v: Seq<char>) -> bool {
        let t = v.subrange(self.lo as int, self.hi as int);
        match self.claim {
            Claim::Segment => is_segment(t),
            Claim::Term => is_term(t),
            Claim::List => is_list(t),
        }
    }

    /// A measure that every step of the examination lowers: what replaces a
    /// stretch is shorter in all, or as long and simpler.
    spec fn weight(self) -> nat {
        let rank: nat = match self.claim {
            Claim::Segment => 0,
            Claim::Term => 1,
            Claim::List => 2,
        };
        (3 * (self.hi - self.lo) + rank) as nat
    }
}

spec fn all_hold(v: Seq<char>, work: Seq<Pending>) -> bool {
    forall|i: int| 0 <= i < work.len() ==> (#[trigger] work[i]).in_bounds(v) && work[i].holds(v)
}

spec fn all_in_bounds(v: Seq<char>, work: Seq<Pending>) -> bool {
    forall|i: int| 0 <= i < work.len() ==> (#[trigger] work[i]).in_bounds(v)
}

spec fn total_weight(work: Seq<Pending>) -> nat
    decreases work.len(),
{
    if work.len() == 0 {
        0
    } else {
        total_weight(work.drop_last()) + work.last().weight()
    }
}

proof fn lemma_weight_push(work: Seq<Pending>, next: Pending)
    ensures
        total_weight(work.push(next)) == total_weight(work) + next.weight(),
{
    assert(work.push(next).drop_last() =~= work);
}

/// Whether `v[lo..hi]` is a segment.
///
/// The examination keeps a list of stretches that have yet to be shown to be
/// what the grammar asks of them. It takes one at a time, looks at its head,
/// and puts back what is left to show. The text is a segment exactly if the
/// list runs empty without a fault. Nesting costs room on this list, not on
/// the call stack.
fn check_segment(v: &Vec<char>, lo: usize, hi: usize) -> (ok: bool)
    requires
        lo <= hi <= v.len(),
    ensures
        ok == is_segment(v@.subrange(lo as int, hi as int)),
{
    let ghost whole = is_segment(v@.subrange(lo as int, hi as int));
    let mut work: Vec<Pending> = Vec::new();
    let start = Pending { claim: Claim::Segment, lo, hi };
    work.push(start);
    proof {
        lemma_all_hold_push(v@, Seq::<Pending>::empty(), start);
        assert(work@ =~= Seq::<Pending>::empty().push(start));
    }
    while work.len() > 0
        invariant
            lo <= hi <= v.len(),
            whole == is_segment(v@.subrange(lo as int, hi as int)),
            all_in_bounds(v@, work@),
            whole == all_hold(v@, work@),
        decreases total_weight(work@),
    {
        let ghost before = work@;
        let item = work.pop().unwrap();
        let ghost rest = work@;
        let ghost t = v@.subrange(item.lo as int, item.hi as int);
        proof {
            assert(before =~= rest.push(item));
            lemma_weight_push(rest, item);
            assert(item == before[before.len() - 1]);
            assert(item.in_bounds(v@));
            assert forall|i: int| 0 <= i < rest.len() implies (#[trigger] rest[i]).in_bounds(
                v@,
            ) by {
                assert(rest[i] == before[i]);
            }
            assert(all_hold(v@, before) == (all_hold(v@, rest) && item.holds(v@))) by {
                if all_hold(v@, before) {
                    assert forall|i: int| 0 <= i < rest.len() implies (#[trigger] rest[i]).in_bounds(
                        v@,
                    ) && rest[i].holds(v@) by {
                        assert(rest[i] == before[i]);
                    }
                }
                if all_hold(v@, rest) && item.holds(v@) {
                    assert forall|i: int| 0 <= i < before.len() implies (
                    #[trigger] before[i]).in_bounds(v@) && before[i].holds(v@) by {
                        if i < rest.len() {
                            assert(rest[i] == before[i]);
                        }
                    }
                }
            }
        }
        match item.claim {
            Claim::Segment => {
                let a = scan_name(v, item.lo, item.lo, item.hi);
                if a == item.lo {
                    return false;
                }
                if a < item.hi {
                    if item.hi - a >= 2 && v[a] == '<' && v[item.hi - 1] == '>' {
                        let next = Pending { claim: Claim::List, lo: a + 1, hi: item.hi - 1 };
                        work.push(next);
                        proof {
                            assert(t.subrange(a - item.lo + 1, t.len() - 1) =~= v@.subrange(
                                a + 1,
                                item.hi - 1,
                            ));
                            lemma_put_back(v@, rest, item, next);
                        }
                    } else {
                        return false;
                    }
                }
            },
            Claim::Term => {
                let a = scan_name(v, item.lo, item.lo, item.hi);
                if item.hi - a >= 2 && v[a] == ':' && v[a + 1] == ':' {
                    match scan_qualifier(v, item.lo, item.hi) {
                        Some((_, b)) => {
                            let next = Pending { claim: Claim::Segment, lo: b + 2, hi: item.hi };
                            work.push(next);
                            proof {
                                lemma_put_back(v@, rest, item, next);
                            }
                        },
                        None => {
                            return false;
                        },
                    }
                } else {
                    let next = Pending { claim: Claim::Segment, lo: item.lo, hi: item.hi };
                    work.push(next);
                    proof {
                        lemma_put_back(v@, rest, item, next);
                    }
                }
            },
            Claim::List => {
                let k = scan_top_comma(v, item.lo, item.hi);
                let first = Pending { claim: Claim::Term, lo: item.lo, hi: k };
                proof {
                    assert(t.subrange(0, k - item.lo) =~= v@.subrange(item.lo as int, k as int));
                }
                if k < item.hi {
                    let others = Pending { claim: Claim::List, lo: k + 1, hi: item.hi };
                    work.push(first);
                    work.push(others);
                    proof {
                        assert(t.subrange(k - item.lo + 1, t.len() as int) =~= v@.subrange(
                            k + 1,
                            item.hi as int,
                        ));
                        lemma_weight_push(rest, first);
                        lemma_weight_push(rest.push(first), others);
                        assert(all_hold(v@, work@) == (all_hold(v@, rest) && first.holds(v@)
                            && others.holds(v@))) by {
                            lemma_all_hold_push(v@, rest, first);
                            lemma_all_hold_push(v@, rest.push(first), others);
                        }
                        assert forall|i: int| 0 <= i < work@.len() implies (
                        #[trigger] work@[i]).in_bounds(v@) by {
                            if i < rest.len() {
                                assert(work@[i] == rest[i]);
                            }
                        }
                    }
                } else {
                    work.push(first);
                    proof {
                        lemma_put_back(v@, rest, item, first);
                    }
                }
            },
        }
    }
    true
}

proof fn lemma_all_hold_push(v: Seq<char>, work: Seq<Pending>, next: Pending)
    requires
        next.in_bounds(v),
    ensures
        all_hold(v, work.push(next)) == (all_hold(v, work) && next.holds(v)),
{
    let after = work.push(next);
    if all_hold(v, after) {
        assert(after[work.len() as int] == next);
        assert forall|i: int| 0 <= i < work.len() implies (#[trigger] work[i]).in_bounds(v)
            && work[i].holds(v) by {
            assert(after[i] == work[i]);
        }
    }
    if all_hold(v, work) && next.holds(v) {
        assert forall|i: int| 0 <= i < after.len() implies (#[trigger] after[i]).in_bounds(v)
            && after[i].holds(v) by {
            if i < work.len() {
                assert(after[i] == work[i]);
            }
        }
    }
}

/// One stretch is put back in place of the one taken: nothing is lost if it
/// holds exactly when the one taken does, and the measure falls if it weighs
/// less.
proof fn lemma_put_back(v: Seq<char>, rest: Seq<Pending>, taken: Pending, next: Pending)
    requires
        all_in_bounds(v, rest),
        next.in_bounds(v),
        next.holds(v) == taken.holds(v),
        next.weight() < taken.weight(),
    ensures
        all_in_bounds(v, rest.push(next)),
        all_hold(v, rest.push(next)) == (all_hold(v, rest) && taken.holds(v)),
        total_weight(rest.push(next)) < total_weight(rest) + taken.weight(),
{
    lemma_all_hold_push(v, rest, next);
    lemma_weight_push(rest, next);
    assert forall|i: int| 0 <= i < rest.push(next).len() implies (#[trigger] rest.push(
        next,
    )[i]).in_bounds(v) by {
        if i < rest.len() {
            assert(rest.push(next)[i] == rest[i]);
        }
    }
}

/// The pieces of `v[lo..hi]` between its top-level commas, cut from `s`.
fn collect_arguments(s: &str, v: &Vec<char>, lo: usize, hi: usize) -> (out: Vec<String>)
    requires
        v@ == s@,
        lo <= hi <= v.len(),
    ensures
        texts(out@) == split_top(v@.subrange(lo as int, hi as int)),
{
    let ghost whole = v@.subrange(lo as int, hi as int);
    let mut out: Vec<String> = Vec::new();
    let mut cur = lo;
    let mut done = false;
    while !done
        invariant
            lo <= cur <= hi <= v.len(),
            v@ == s@,
            whole == v@.subrange(lo as int, hi as int),
            !done ==> split_top(whole) == texts(out@) + split_top(
                v@.subrange(cur as int, hi as int),
            ),
            done ==> split_top(whole) == texts(out@),
        decreases (hi - cur) + (if done { 0int } else { 1int }),
    {
        let ghost rest = v@.subrange(cur as int, hi as int);
        let ghost before = texts(out@);
        let k = scan_top_comma(v, cur, hi);
        let piece = s.substring_char(cur, k).to_owned();
        out.push(piece);
        proof {
            assert(rest.subrange(0, k - cur) =~= piece@);
            assert(texts(out@) =~= before.push(piece@));
        }
        if k < hi {
            proof {
                let after = v@.subrange(k + 1, hi as int);
                assert(rest.subrange(k - cur + 1, rest.len() as int) =~= after);
                assert(split_top(rest) == seq![piece@] + split_top(after));
                assert(before + (seq![piece@] + split_top(after)) =~= before.push(piece@)
                    + split_top(after));
            }
            cur = k + 1;
        } else {
            proof {
                assert(split_top(rest) == seq![piece@]);
                assert(before + seq![piece@] =~= before.push(piece@));
            }
            done = true;
        }
    }
    out
}

/// The name and the arguments of the segment `v[lo..]`, cut from `s`.
fn cut_segment(s: &str, v: &Vec<char>, lo: usize) -> (r: (String, Vec<String>))
    requires
        v@ == s@,
        lo <= v.len(),
        is_segment(v@.subrange(lo as int, v.len() as int)),
    ensures
        r.0@ == segment_name(v@.subrange(lo as int, v.len() as int)),
        texts(r.1@) == segment_arguments(v@.subrange(lo as int, v.len() as int)),
{
    let n = v.len();
    let ghost seg = v@.subrange(lo as int, n as int);
    let c = scan_name(v, lo, lo, n);
    let name = s.substring_char(lo, c).to_owned();
    proof {
        assert(name@ =~= segment_name(seg));
    }
    if n - c >= 2 {
        proof {
            assert(seg.subrange(c - lo + 1, seg.len() - 1) =~= v@.subrange(c + 1, n - 1));
        }
        (name, collect_arguments(s, v, c + 1, n - 1))
    } else {
        let none: Vec<String> = Vec::new();
        proof {
            assert(texts(none@) =~= Seq::<Seq<char>>::empty());
        }
        (name, none)
    }
}

/// Parses a type path.
///
/// Succeeds exactly on the texts of the grammar, and then gives the path's
/// parts with nothing added, dropped or trimmed: the package, the module, the
/// struct's name, and the generic arguments cut at the top-level commas.
pub fn parse_type_path(s: &str) -> (r: Result<SuiIndexedType, MalformedRecord>)
    ensures
        r is Ok <==> is_type_path(s@),
        r matches Ok(t) ==> t@ == type_path_of(s@),
        r matches Err(e) ==> e == MalformedRecord::InvalidTypePath,
{
    let v = chars_of(s);
    match split_path(&v) {
        Some((a, b)) => Ok(cut_path(s, &v, a, b)),
        None => Err(MalformedRecord::InvalidTypePath),
    }
}

/// The ends of the package and of the module of a type path, if `v` is one.
fn split_path(v: &Vec<char>) -> (r: Option<(usize, usize)>)
    ensures
        r is Some <==> is_type_path(v@),
        r matches Some((a, b)) ==> {
            &&& a == first_delimiter(v@, 0)
            &&& b == first_delimiter(v@, a + 2)
            &&& a + 2 <= b
            &&& b + 2 <= v.len()
        },
{
    let n = v.len();
    proof {
        assert(v@.subrange(0, n as int) =~= v@);
    }
    match scan_qualifier(v, 0, n) {
        Some((a, b)) => if check_segment(v, b + 2, n) {
            Some((a, b))
        } else {
            None
        },
        None => None,
    }
}

/// The parts of the type path `s`, whose package ends at `a` and whose
/// module ends at `b`.
fn cut_path(s: &str, v: &Vec<char>, a: usize, b: usize) -> (t: SuiIndexedType)
    requires
        v@ == s@,
        is_type_path(s@),
        a == first_delimiter(s@, 0),
        b == first_delimiter(s@, a + 2),
        a + 2 <= b,
        b + 2 <= v.len(),
    ensures
        t@ == type_path_of(s@),
{
    let (struct_, generics) = cut_segment(s, v, b + 2);
    SuiIndexedType {
        full: s.to_owned(),
        package: s.substring_char(0, a).to_owned(),
        module: s.substring_char(a + 2, b).to_owned(),
        struct_,
        generics,
    }
}

} // verus!

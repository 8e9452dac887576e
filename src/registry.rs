//! Metadata of the commands offered to the UI, from which typed client code is
//! generated: the TypeScript annotation of each parameter and result type, the
//! type names a client file imports, and the client-side function names.
use vstd::prelude::*;
use crate::text::{chars_of, compare_chars, insert_sorted, strictly_sorted, string_from_chars};

verus! {

/// An ASCII letter or digit.
pub open spec fn ascii_alphanumeric(c: char) -> bool {
    ('a' <= c && c <= 'z') || ('A' <= c && c <= 'Z') || ('0' <= c && c <= '9')
}

/// A character that may stand in a type name used as is.
pub open spec fn ts_name_char(c: char) -> bool {
    ascii_alphanumeric(c) || c == '_' || c == '<' || c == '>' || c == '[' || c == ']' || c == ','
        || c == '.'
}

/// The prefix of an optional type's name.
pub open spec fn option_prefix() -> Seq<char> {
    seq!['O', 'p', 't', 'i', 'o', 'n', '<']
}

/// `s` is a type name that can be used as is in an annotation: not empty,
/// no union or intersection, not an optional type, made of letters, digits
/// and `_<>[],.` alone.
pub open spec fn simple_ts_identifier(s: Seq<char>) -> bool {
    &&& s.len() > 0
    &&& !s.contains('|')
    &&& !s.contains('&')
    &&& !(s.len() >= 7 && s.subrange(0, 7) == option_prefix())
    &&& forall|i: int| 0 <= i < s.len() ==> ts_name_char(#[trigger] s[i])
}

/// Whether `value` is a type name that can be used as is (see
/// `simple_ts_identifier`).
pub fn is_simple_ts_identifier(value: &str) -> (r: bool)
    ensures
        r == simple_ts_identifier(value@),
{
    let chars = chars_of(value);
    let n = chars.len();
    if n == 0 {
        return false;
    }
    let mut i: usize = 0;
    while i < n
        invariant
            n == chars@.len(),
            chars@ == value@,
            i <= n,
            forall|j: int| 0 <= j < i ==> ts_name_char(#[trigger] chars@[j]),
        decreases n - i,
    {
        let c = chars[i];
        let allowed = ('a' <= c && c <= 'z') || ('A' <= c && c <= 'Z') || ('0' <= c && c <= '9')
            || c == '_' || c == '<' || c == '>' || c == '[' || c == ']' || c == ',' || c == '.';
        if !allowed {
            assert(!ts_name_char(value@[i as int]));
            return false;
        }
        i = i + 1;
    }
    assert(!value@.contains('|')) by {
        if value@.contains('|') {
            let j = choose|j: int| 0 <= j < value@.len() && value@[j] == '|';
            assert(ts_name_char(chars@[j]));
        }
    }
    assert(!value@.contains('&')) by {
        if value@.contains('&') {
            let j = choose|j: int| 0 <= j < value@.len() && value@[j] == '&';
            assert(ts_name_char(chars@[j]));
        }
    }
    let starts_with_option = n >= 7 && chars[0] == 'O' && chars[1] == 'p' && chars[2] == 't'
        && chars[3] == 'i' && chars[4] == 'o' && chars[5] == 'n' && chars[6] == '<';
    proof {
        if n >= 7 {
            if value@.subrange(0, 7) == option_prefix() {
                assert(value@.subrange(0, 7)[6] == '<');
            }
            if starts_with_option {
                assert(value@.subrange(0, 7) =~= option_prefix());
            }
        }
    }
    !starts_with_option
}

/// The upper-case form of an ASCII lower-case letter; any other character
/// is kept.
pub open spec fn ascii_upper(c: char) -> char {
    if 'a' <= c && c <= 'z' {
        ((c as u32 - 32) as u8) as char
    } else {
        c
    }
}

/// `char::to_ascii_uppercase`, written out.
pub fn to_ascii_uppercase(c: char) -> (r: char)
    ensures
        r == ascii_upper(c),
{
    if 'a' <= c && c <= 'z' {
        ((c as u32 - 32) as u8) as char
    } else {
        c
    }
}

/// The rest of a snake-case name in camel case: underscores are dropped, and
/// the character after one (or `upper_next` for the first) is upper-cased.
pub open spec fn camel_tail(s: Seq<char>, upper_next: bool) -> Seq<char>
    decreases s.len(),
{
    if s.len() == 0 {
        Seq::empty()
    } else if s[0] == '_' {
        camel_tail(s.drop_first(), true)
    } else {
        seq![if upper_next { ascii_upper(s[0]) } else { s[0] }] + camel_tail(s.drop_first(), false)
    }
}

/// A snake-case name in camel case; the first character is kept as it is.
pub open spec fn camel_case(s: Seq<char>) -> Seq<char> {
    if s.len() == 0 {
        Seq::empty()
    } else {
        seq![s[0]] + camel_tail(s.drop_first(), false)
    }
}

/// Turns a snake-case name into camel case (see `camel_case`).
pub fn snake_to_camel(value: &str) -> (r: String)
    ensures
        r@ == camel_case(value@),
{
    let chars = chars_of(value);
    let n = chars.len();
    let mut out: Vec<char> = Vec::new();
    if n == 0 {
        return string_from_chars(&out);
    }
    out.push(chars[0]);
    let mut uppercase_next = false;
    let mut i: usize = 1;
    while i < n
        invariant
            n == chars@.len(),
            chars@ == value@,
            1 <= i <= n,
            out@ + camel_tail(chars@.subrange(i as int, n as int), uppercase_next) == camel_case(
                value@,
            ),
        decreases n - i,
    {
        let ghost rest = chars@.subrange(i as int, n as int);
        assert(rest.drop_first() =~= chars@.subrange(i + 1, n as int));
        let ch = chars[i];
        if ch == '_' {
            uppercase_next = true;
        } else if uppercase_next {
            out.push(to_ascii_uppercase(ch));
            uppercase_next = false;
        } else {
            out.push(ch);
        }
        i = i + 1;
        proof {
            assert(out@ + camel_tail(chars@.subrange(i as int, n as int), uppercase_next) =~= camel_case(value@));
        }
    }
    assert(chars@.subrange(n as int, n as int) =~= Seq::<char>::empty());
    assert(out@ =~= camel_case(value@));
    string_from_chars(&out)
}

/// What `char::is_alphanumeric` returns: the Unicode Alphabetic or Numeric
/// property.
pub uninterp spec fn unicode_alphanumeric(c: char) -> bool;

/// What `char::is_uppercase` returns: the Unicode Uppercase property.
pub uninterp spec fn unicode_uppercase(c: char) -> bool;

/// Relies on `char::is_alphanumeric`; it depends on the character alone.
#[verifier::external_body]
fn is_alphanumeric(c: char) -> (r: bool)
    ensures
        r == unicode_alphanumeric(c),
{
    c.is_alphanumeric()
}

/// Relies on `char::is_uppercase`; it depends on the character alone.
#[verifier::external_body]
fn is_uppercase(c: char) -> (r: bool)
    ensures
        r == unicode_uppercase(c),
{
    c.is_uppercase()
}

/// A character that may stand in a Rust type name.
pub open spec fn word_char(c: char) -> bool {
    unicode_alphanumeric(c) || c == '_'
}

/// `s[a..b]` is a maximal run of word characters of `s`.
pub open spec fn token_at(s: Seq<char>, a: int, b: int) -> bool {
    &&& 0 <= a < b <= s.len()
    &&& forall|k: int| a <= k < b ==> word_char(#[trigger] s[k])
    &&& (a == 0 || !word_char(s[a - 1]))
    &&& (b == s.len() || !word_char(s[b]))
}

/// Type names that are never imported.
pub open spec fn reserved_names() -> Seq<Seq<char>> {
    seq![
        seq!['V', 'e', 'c'],
        seq!['O', 'p', 't', 'i', 'o', 'n'],
        seq!['R', 'e', 's', 'u', 'l', 't'],
        seq!['S', 't', 'r', 'i', 'n', 'g'],
        seq!['P', 'a', 't', 'h', 'B', 'u', 'f'],
        seq!['H', 'a', 's', 'h', 'M', 'a', 'p'],
    ]
}

/// A name worth importing: it starts with an upper-case letter and is not
/// reserved.
pub open spec fn importable(t: Seq<char>) -> bool {
    t.len() > 0 && unicode_uppercase(t[0]) && !reserved_names().contains(t)
}

/// `t` is a name that a client importing the Rust type `s` imports: a
/// maximal run of word characters of `s` that is importable.
pub open spec fn import_of(s: Seq<char>, t: Seq<char>) -> bool {
    exists|a: int, b: int| token_at(s, a, b) && s.subrange(a, b) == t && importable(t)
}

/// The importable runs of `s` that end before position `m`.
pub open spec fn imports_before(s: Seq<char>, t: Seq<char>, m: int) -> bool {
    exists|a: int, b: int| token_at(s, a, b) && b < m && s.subrange(a, b) == t && importable(t)
}

/// A run of word characters `s[start..i]` that cannot be extended to the
/// left, ended by a non-word character or by the end of `s`.
pub open spec fn closed_run(s: Seq<char>, start: int, i: int) -> bool {
    &&& 0 <= start <= i <= s.len()
    &&& forall|k: int| start <= k < i ==> word_char(#[trigger] s[k])
    &&& (start == 0 || !word_char(s[start - 1]))
    &&& (i == s.len() || !word_char(s[i]))
}

proof fn lemma_run_is_the_token(s: Seq<char>, start: int, i: int, a: int, b: int)
    requires
        closed_run(s, start, i),
        token_at(s, a, b),
        start <= b <= i,
    ensures
        a == start,
        b == i,
{
    if b < i {
        assert(word_char(s[b]));
    }
    if a < start {
        assert(word_char(s[start - 1]));
    }
    if a > start {
        assert(word_char(s[a - 1]));
    }
}

proof fn lemma_imports_step(s: Seq<char>, start: int, i: int)
    requires
        closed_run(s, start, i),
    ensures
        forall|t: Seq<char>|
            imports_before(s, t, i + 1) <==> (imports_before(s, t, start) || (start < i && t
                == s.subrange(start, i) && importable(t))),
{
    assert forall|t: Seq<char>|
        imports_before(s, t, i + 1) <==> (imports_before(s, t, start) || (start < i && t
            == s.subrange(start, i) && importable(t))) by {
        if imports_before(s, t, i + 1) {
            let (a, b) = choose|a: int, b: int|
                token_at(s, a, b) && b < i + 1 && s.subrange(a, b) == t && importable(t);
            if b >= start {
                lemma_run_is_the_token(s, start, i, a, b);
            }
        }
        if start < i && t == s.subrange(start, i) && importable(t) {
            assert(token_at(s, start, i));
        }
    }
}

/// Whether `t` is one of the reserved names.
fn is_reserved(t: &Vec<char>) -> (r: bool)
    ensures
        r == reserved_names().contains(t@),
{
    let names: Vec<Vec<char>> = vec![
        vec!['V', 'e', 'c'],
        vec!['O', 'p', 't', 'i', 'o', 'n'],
        vec!['R', 'e', 's', 'u', 'l', 't'],
        vec!['S', 't', 'r', 'i', 'n', 'g'],
        vec!['P', 'a', 't', 'h', 'B', 'u', 'f'],
        vec!['H', 'a', 's', 'h', 'M', 'a', 'p'],
    ];
    assert(names@.map_values(|x: Vec<char>| x@) =~= reserved_names()) by {
        assert(names@[0]@ =~= reserved_names()[0]);
        assert(names@[1]@ =~= reserved_names()[1]);
        assert(names@[2]@ =~= reserved_names()[2]);
        assert(names@[3]@ =~= reserved_names()[3]);
        assert(names@[4]@ =~= reserved_names()[4]);
        assert(names@[5]@ =~= reserved_names()[5]);
    }
    let mut i: usize = 0;
    while i < names.len()
        invariant
            i <= names@.len(),
            names@.map_values(|x: Vec<char>| x@) == reserved_names(),
            forall|k: int| 0 <= k < i ==> reserved_names()[k] != t@,
        decreases names@.len() - i,
    {
        if compare_chars(&names[i], t) == 0 {
            assert(reserved_names()[i as int] == t@);
            return true;
        }
        i = i + 1;
    }
    false
}

/// Adds the run `current` to `found` where it is importable.
fn take_run(found: &mut Vec<Vec<char>>, current: Vec<char>)
    requires
        strictly_sorted(old(found)@.map_values(|x: Vec<char>| x@)),
    ensures
        strictly_sorted(final(found)@.map_values(|x: Vec<char>| x@)),
        final(found)@.map_values(|x: Vec<char>| x@).to_set() == if importable(current@) {
            old(found)@.map_values(|x: Vec<char>| x@).to_set().insert(current@)
        } else {
            old(found)@.map_values(|x: Vec<char>| x@).to_set()
        },
{
    if current.len() > 0 && is_uppercase(current[0]) && !is_reserved(&current) {
        insert_sorted(found, current);
    }
}

/// The names a client of the Rust type written `rust_type` imports: the
/// maximal runs of letters, digits and underscores that start with an
/// upper-case letter and are not reserved, each once, in increasing order.
pub fn extract_imports(rust_type: &str) -> (r: Vec<String>)
    ensures
        strictly_sorted(r@.map_values(|x: String| x@)),
        forall|t: Seq<char>| r@.map_values(|x: String| x@).contains(t) <==> import_of(rust_type@, t),
{
    let ghost s = rust_type@;
    let chars = chars_of(rust_type);
    let n = chars.len();
    let mut found: Vec<Vec<char>> = Vec::new();
    let mut current: Vec<char> = Vec::new();
    let mut start: usize = 0;
    let mut i: usize = 0;
    assert(found@.map_values(|x: Vec<char>| x@).to_set() =~= Set::<Seq<char>>::empty());
    while i < n
        invariant
            chars@ == s,
            n == s.len(),
            start <= i <= n,
            current@ == s.subrange(start as int, i as int),
            forall|k: int| start <= k < i ==> word_char(#[trigger] s[k]),
            start == 0 || !word_char(s[start - 1]),
            strictly_sorted(found@.map_values(|x: Vec<char>| x@)),
            forall|t: Seq<char>|
                found@.map_values(|x: Vec<char>| x@).to_set().contains(t) <==> imports_before(
                    s,
                    t,
                    start as int,
                ),
        decreases n - i,
    {
        let c = chars[i];
        if is_alphanumeric(c) || c == '_' {
            current.push(c);
            assert(current@ =~= s.subrange(start as int, i + 1));
        } else {
            proof {
                lemma_imports_step(s, start as int, i as int);
            }
            let ghost run = current@;
            let ghost old_found = found@.map_values(|x: Vec<char>| x@).to_set();
            let ghost old_start = start as int;
            take_run(&mut found, current);
            current = Vec::new();
            start = i + 1;
            assert forall|t: Seq<char>|
                found@.map_values(|x: Vec<char>| x@).to_set().contains(t) <==> imports_before(
                    s,
                    t,
                    start as int,
                ) by {
                assert(imports_before(s, t, i + 1) <==> (imports_before(s, t, old_start) || (old_start
                    < i && t == s.subrange(old_start, i as int) && importable(t))));
                assert(old_found.contains(t) <==> imports_before(s, t, old_start));
            }
            assert(current@ =~= s.subrange(start as int, start as int));
        }
        i = i + 1;
    }
    proof {
        lemma_imports_step(s, start as int, n as int);
    }
    let ghost old_found = found@.map_values(|x: Vec<char>| x@).to_set();
    take_run(&mut found, current);
    let ghost fv = found@.map_values(|x: Vec<char>| x@);
    assert forall|t: Seq<char>| fv.to_set().contains(t) <==> import_of(s, t) by {
        assert(imports_before(s, t, n + 1) <==> (imports_before(s, t, start as int) || (start < n
            && t == s.subrange(start as int, n as int) && importable(t))));
        assert(old_found.contains(t) <==> imports_before(s, t, start as int));
        if imports_before(s, t, n + 1) {
            let (a, b) = choose|a: int, b: int|
                token_at(s, a, b) && b < n + 1 && s.subrange(a, b) == t && importable(t);
            assert(import_of(s, t));
        }
        if import_of(s, t) {
            let (a, b) = choose|a: int, b: int| token_at(s, a, b) && s.subrange(a, b) == t && importable(t);
            assert(imports_before(s, t, n + 1));
        }
    }
    let mut r: Vec<String> = Vec::new();
    let mut j: usize = 0;
    while j < found.len()
        invariant
            j <= found@.len(),
            fv == found@.map_values(|x: Vec<char>| x@),
            r@.len() == j,
            forall|k: int| 0 <= k < j ==> #[trigger] r@[k]@ == fv[k],
        decreases found@.len() - j,
    {
        r.push(string_from_chars(&found[j]));
        j = j + 1;
    }
    assert(r@.map_values(|x: String| x@) =~= fv);
    r
}

/// A parameter or result type of a command, as the client generator sees it.
#[derive(Debug, Clone)]
pub struct CommandTypeMetadata {
    ts_type: String,
    ts_name: Option<String>,
    is_unit: bool,
    imports: Vec<String>,
}

/// What `CommandTypeMetadata` holds, as values.
pub struct CommandTypeView {
    pub ts_type: Seq<char>,
    pub ts_name: Option<Seq<char>>,
    pub is_unit: bool,
    pub imports: Seq<Seq<char>>,
}

impl View for CommandTypeMetadata {
    type V = CommandTypeView;

    closed spec fn view(&self) -> CommandTypeView {
        CommandTypeView {
            ts_type: self.ts_type@,
            ts_name: match self.ts_name {
                Some(n) => Some(n@),
                None => None,
            },
            is_unit: self.is_unit,
            imports: self.imports@.map_values(|x: String| x@),
        }
    }
}

/// The Rust unit type, written out.
pub open spec fn unit_type() -> Seq<char> {
    seq!['(', ')']
}

/// The annotation used for a type in client code: `void` for the unit type,
/// else its name where that can be used as is, else its inline definition.
pub open spec fn annotation(m: CommandTypeView) -> Seq<char> {
    if m.is_unit {
        "void"@
    } else {
        match m.ts_name {
            Some(n) => n,
            None => m.ts_type,
        }
    }
}

impl CommandTypeMetadata {
    /// Metadata of a type written `rust_type` in Rust, whose TypeScript inline
    /// definition is `ts_type` and whose TypeScript name is `raw_name`.
    pub fn from_parts(ts_type: String, raw_name: String, rust_type: &str) -> (r: Self)
        ensures
            r@.ts_type == ts_type@,
            r@.ts_name == if simple_ts_identifier(raw_name@) {
                Some(raw_name@)
            } else {
                None::<Seq<char>>
            },
            r@.is_unit == (rust_type@ == unit_type()),
            r@.is_unit ==> r@.imports.len() == 0,
            !r@.is_unit ==> strictly_sorted(r@.imports) && forall|t: Seq<char>|
                r@.imports.contains(t) <==> import_of(rust_type@, t),
    {
        let ts_name = if is_simple_ts_identifier(raw_name.as_str()) {
            Some(raw_name)
        } else {
            None
        };
        let chars = chars_of(rust_type);
        let is_unit = chars.len() == 2 && chars[0] == '(' && chars[1] == ')';
        proof {
            if rust_type@ == unit_type() {
                assert(chars@[0] == unit_type()[0]);
            }
            if is_unit {
                assert(rust_type@ =~= unit_type());
            }
        }
        let imports = if is_unit {
            Vec::new()
        } else {
            extract_imports(rust_type)
        };
        CommandTypeMetadata { ts_type, ts_name, is_unit, imports }
    }

    /// The annotation used for this type in client code (see `annotation`).
    pub fn ts_annotation(&self) -> (r: String)
        ensures
            r@ == annotation(self@),
    {
        if self.is_unit {
            "void".to_string()
        } else if let Some(name) = &self.ts_name {
            name.clone()
        } else {
            self.ts_type.clone()
        }
    }

    /// The type names client code imports for this type.
    pub fn imports(&self) -> (r: &[String])
        ensures
            r@.map_values(|x: String| x@) == self@.imports,
    {
        self.imports.as_slice()
    }

    /// Whether this is the unit type.
    pub fn is_unit(&self) -> (r: bool)
        ensures
            r == self@.is_unit,
    {
        self.is_unit
    }
}

/// What `str::trim` returns: the string without leading and trailing
/// Unicode white space.
pub uninterp spec fn trimmed(s: Seq<char>) -> Seq<char>;

/// Relies on `str::trim`; it depends on the string alone.
#[verifier::external_body]
fn trim(s: &str) -> (r: &str)
    ensures
        r@ == trimmed(s@),
{
    s.trim()
}

/// A `::` separator starts at position `k` of `s`.
pub open spec fn separator_at(s: Seq<char>, k: int) -> bool {
    0 <= k && k + 1 < s.len() && s[k] == ':' && s[k + 1] == ':'
}

/// The part of a path after its last `::` separator; the whole path where
/// it has none.
pub open spec fn last_segment(s: Seq<char>) -> Seq<char> {
    if exists|k: int| separator_at(s, k) {
        let k = choose|k: int| separator_at(s, k) && forall|j: int| separator_at(s, j) ==> j <= k;
        s.subrange(k + 2, s.len() as int)
    } else {
        s
    }
}

/// The function name of a handler path: its last segment trimmed, or the
/// whole path where that is empty.
pub open spec fn handler_name(s: Seq<char>) -> Seq<char> {
    if trimmed(last_segment(s)).len() > 0 {
        trimmed(last_segment(s))
    } else {
        s
    }
}

/// The part of `path` after its last `::` separator (see `last_segment`).
fn last_path_segment(path: &str) -> (r: Vec<char>)
    ensures
        r@ == last_segment(path@),
{
    let chars = chars_of(path);
    let n = chars.len();
    let mut k: usize = n;
    while k >= 2
        invariant
            chars@ == path@,
            n == path@.len(),
            k <= n,
            forall|j: int| k - 1 <= j < n ==> !separator_at(path@, j),
        decreases k,
    {
        if chars[k - 2] == ':' && chars[k - 1] == ':' {
            let ghost sep = (k - 2) as int;
            assert(separator_at(path@, sep));
            assert(forall|j: int| separator_at(path@, j) ==> j <= sep);
            let ghost c = choose|c: int|
                separator_at(path@, c) && forall|j: int| separator_at(path@, j) ==> j <= c;
            assert(c == sep);
            let mut out: Vec<char> = Vec::new();
            let mut i: usize = k;
            while i < n
                invariant
                    chars@ == path@,
                    n == path@.len(),
                    k <= i <= n,
                    out@ == path@.subrange(k as int, i as int),
                decreases n - i,
            {
                out.push(chars[i]);
                i = i + 1;
                assert(out@ =~= path@.subrange(k as int, i as int));
            }
            return out;
        }
        k = k - 1;
    }
    assert(!exists|j: int| separator_at(path@, j));
    chars
}

/// A command offered to the UI, with the client function that calls it.
#[derive(Debug, Clone)]
pub struct CommandDescriptor {
    pub property_name: String,
    pub command_name: String,
    pub params: CommandTypeMetadata,
    pub result: CommandTypeMetadata,
}

impl CommandDescriptor {
    /// The descriptor of the command handled by the function at
    /// `handler_path`: it is called by that function's name, from a client
    /// function named in camel case.
    pub fn from_parts(
        handler_path: &str,
        params: CommandTypeMetadata,
        result: CommandTypeMetadata,
    ) -> (r: Self)
        ensures
            r.command_name@ == handler_name(handler_path@),
            r.property_name@ == camel_case(handler_name(handler_path@)),
            r.params@ == params@,
            r.result@ == result@,
    {
        let segment = string_from_chars(&last_path_segment(handler_path));
        let trimmed_segment = trim(segment.as_str());
        let function_name = if trimmed_segment.unicode_len() > 0 {
            trimmed_segment
        } else {
            handler_path
        };
        CommandDescriptor {
            property_name: snake_to_camel(function_name),
            command_name: function_name.to_string(),
            params,
            result,
        }
    }
}

/// `n` spaces.
pub open spec fn spaces(n: nat) -> Seq<char>
    decreases n,
{
    if n == 0 {
        Seq::empty()
    } else {
        spaces((n - 1) as nat) + " "@
    }
}

/// The client function that calls a command, indented by `indent` spaces:
/// it takes the parameters unless they are the unit type, and resolves to
/// the command's result.
pub open spec fn command_function(
    indent: nat,
    function_name: Seq<char>,
    command_name: Seq<char>,
    params_annotation: Seq<char>,
    params_is_void: bool,
    result_annotation: Seq<char>,
) -> Seq<char> {
    let ind = spaces(indent);
    let header = if params_is_void {
        ind + "export async function "@ + function_name + "(): Promise<"@ + result_annotation
            + "> {\n"@
    } else {
        ind + "export async function "@ + function_name + "(params: "@ + params_annotation
            + "): Promise<"@ + result_annotation + "> {\n"@
    };
    let body = if params_is_void {
        ind + "  return await invoke<"@ + result_annotation + ">(\""@ + command_name + "\");\n"@
    } else {
        ind + "  return await invoke<"@ + result_annotation + ">(\""@ + command_name
            + "\", { params });\n"@
    };
    header + body + ind + "}\n\n"@
}

/// Appends to `buffer` the client function of `definition` (see
/// `command_function`).
pub fn write_command_function(buffer: &mut String, definition: &CommandDescriptor, indent: usize)
    ensures
        final(buffer)@ == old(buffer)@ + command_function(
            indent as nat,
            definition.property_name@,
            definition.command_name@,
            annotation(definition.params@),
            definition.params@.is_unit,
            annotation(definition.result@),
        ),
{
    let mut indentation = String::new();
    let mut k: usize = 0;
    while k < indent
        invariant
            k <= indent,
            indentation@ == spaces(k as nat),
        decreases indent - k,
    {
        indentation.append(" ");
        k = k + 1;
    }
    let params_annotation = definition.params.ts_annotation();
    let result_annotation = definition.result.ts_annotation();
    let params_is_void = definition.params.is_unit();
    let command_name = &definition.command_name;
    let function_name = &definition.property_name;
    let ind = indentation.as_str();
    if params_is_void {
        buffer.append(ind);
        buffer.append("export async function ");
        buffer.append(function_name.as_str());
        buffer.append("(): Promise<");
        buffer.append(result_annotation.as_str());
        buffer.append("> {\n");
        buffer.append(ind);
        buffer.append("  return await invoke<");
        buffer.append(result_annotation.as_str());
        buffer.append(">(\"");
        buffer.append(command_name.as_str());
        buffer.append("\");\n");
    } else {
        buffer.append(ind);
        buffer.append("export async function ");
        buffer.append(function_name.as_str());
        buffer.append("(params: ");
        buffer.append(params_annotation.as_str());
        buffer.append("): Promise<");
        buffer.append(result_annotation.as_str());
        buffer.append("> {\n");
        buffer.append(ind);
        buffer.append("  return await invoke<");
        buffer.append(result_annotation.as_str());
        buffer.append(">(\"");
        buffer.append(command_name.as_str());
        buffer.append("\", { params });\n");
    }
    buffer.append(ind);
    buffer.append("}\n\n");
    assert(buffer@ =~= old(buffer)@ + command_function(
        indent as nat,
        definition.property_name@,
        definition.command_name@,
        annotation(definition.params@),
        definition.params@.is_unit,
        annotation(definition.result@),
    ));
}

} // verus!

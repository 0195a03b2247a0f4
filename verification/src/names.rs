//! Filesystem-safe name sanitization, case-insensitive comparison,
//! track-number formatting and path-segment helpers.

use vstd::prelude::*;
use vstd::pervasive::VecAdditionalExecFns;
use vstd::string::StrSliceExecFns;
use vstd::string::StringExecFns;

verus! {

/// Characters stripped from a name before it becomes a path segment.
pub open spec fn is_forbidden_char(c: char) -> bool {
    c == '<' || c == '>' || c == ':' || c == '"' || c == '/' || c == '\\' || c == '|' || c == '?'
        || c == '*'
}

/// A name with every forbidden character removed.
pub open spec fn strip_forbidden(s: Seq<char>) -> Seq<char> {
    s.filter(|c: char| !is_forbidden_char(c))
}

/// A leading or trailing `.` is replaced by `_`; first the leading one,
/// then a trailing one if the intermediate result still ends with `.`.
pub open spec fn replace_boundary_dots(s: Seq<char>) -> Seq<char> {
    let s1 = if s.len() > 0 && s[0] == '.' {
        s.update(0, '_')
    } else {
        s
    };
    if s1.len() > 0 && s1[s1.len() - 1] == '.' {
        s1.update(s1.len() - 1, '_')
    } else {
        s1
    }
}

/// The sanitized form of a name: forbidden characters removed, then
/// boundary dots replaced.
pub open spec fn sanitized(s: Seq<char>) -> Seq<char> {
    replace_boundary_dots(strip_forbidden(s))
}

/// The unicode code point of a character, with ASCII upper case folded
/// to lower case.
pub open spec fn lower_code(c: char) -> u32 {
    if 'A' as u32 <= c as u32 && c as u32 <= 'Z' as u32 {
        (c as u32 + 32) as u32
    } else {
        c as u32
    }
}

/// Equality of two names up to ASCII case.
pub open spec fn eq_ignore_case(a: Seq<char>, b: Seq<char>) -> bool {
    a.len() == b.len() && forall|i: int| 0 <= i < a.len() ==> lower_code(a[i]) == lower_code(b[i])
}

/// The decimal digits of `n`, most significant first.
pub open spec fn dec_digits(n: nat) -> Seq<char>
    decreases n,
{
    if n < 10 {
        seq![digit_char(n)]
    } else {
        dec_digits(n / 10).push(digit_char(n % 10))
    }
}

/// The character for a single decimal digit.
pub open spec fn digit_char(d: nat) -> char {
    if d == 0 {
        '0'
    } else if d == 1 {
        '1'
    } else if d == 2 {
        '2'
    } else if d == 3 {
        '3'
    } else if d == 4 {
        '4'
    } else if d == 5 {
        '5'
    } else if d == 6 {
        '6'
    } else if d == 7 {
        '7'
    } else if d == 8 {
        '8'
    } else {
        '9'
    }
}

/// `n` rendered with at least two digits, as a track number prefix.
pub open spec fn track_prefix(n: u16) -> Seq<char> {
    if n < 10 {
        seq!['0'] + dec_digits(n as nat)
    } else {
        dec_digits(n as nat)
    }
}

/// `dir` and a child entry joined with a single separator.
pub open spec fn join_path(dir: Seq<char>, name: Seq<char>) -> Seq<char> {
    dir + seq!['/'] + name
}

/// The index of the last occurrence of `c` in `s`, or -1.
pub open spec fn last_index_of(s: Seq<char>, c: char) -> int
    decreases s.len(),
{
    if s.len() == 0 {
        -1
    } else if s[s.len() - 1] == c {
        s.len() - 1
    } else {
        last_index_of(s.drop_last(), c)
    }
}

/// The final path component: everything after the last separator.
pub open spec fn file_name_of(p: Seq<char>) -> Seq<char> {
    p.subrange(last_index_of(p, '/') + 1, p.len() as int)
}

/// Whether the final component has an extension in the usual sense:
/// a dot at some position after its first character.
pub open spec fn has_file_extension(p: Seq<char>) -> bool {
    last_index_of(file_name_of(p), '.') >= 1
}

/// The extension of the final component: everything after its last dot.
pub open spec fn extension_of(p: Seq<char>) -> Seq<char> {
    let name = file_name_of(p);
    name.subrange(last_index_of(name, '.') + 1, name.len() as int)
}

/// The album name that marks a lone song as a single.
pub open spec fn single_name(title: Seq<char>) -> Seq<char> {
    title + " - single"@
}

pub proof fn lemma_last_index_of_props(s: Seq<char>, c: char)
    ensures
        -1 <= last_index_of(s, c) < s.len(),
        last_index_of(s, c) >= 0 ==> s[last_index_of(s, c)] == c,
        forall|j: int| last_index_of(s, c) < j < s.len() ==> s[j] != c,
    decreases s.len(),
{
    if s.len() > 0 && s[s.len() - 1] != c {
        lemma_last_index_of_props(s.drop_last(), c);
        assert forall|j: int| last_index_of(s, c) < j < s.len() implies s[j] != c by {
            if j < s.len() - 1 {
                assert(s.drop_last()[j] == s[j]);
            }
        }
    }
}

pub proof fn lemma_last_index_of_unique(s: Seq<char>, c: char, k: int)
    requires
        0 <= k < s.len(),
        s[k] == c,
        forall|j: int| k < j < s.len() ==> s[j] != c,
    ensures
        last_index_of(s, c) == k,
    decreases s.len(),
{
    if k < s.len() - 1 {
        lemma_last_index_of_unique(s.drop_last(), c, k);
    }
}

pub proof fn lemma_last_index_of_none(s: Seq<char>, c: char)
    requires
        forall|j: int| 0 <= j < s.len() ==> s[j] != c,
    ensures
        last_index_of(s, c) == -1,
    decreases s.len(),
{
    if s.len() > 0 {
        lemma_last_index_of_none(s.drop_last(), c);
    }
}

proof fn lemma_strip_push(s: Seq<char>, c: char)
    ensures
        strip_forbidden(s.push(c)) == if is_forbidden_char(c) {
            strip_forbidden(s)
        } else {
            strip_forbidden(s).push(c)
        },
{
    reveal(Seq::filter);
    assert(s.push(c).drop_last() =~= s);
}

/// Relies on `String::push` of std: appends one character.
#[verifier::external_body]
fn push_char(s: &mut String, c: char)
    ensures
        final(s)@ == old(s)@.push(c),
{
    s.push(c);
}

/// The characters of a string slice, as a vector.
pub fn chars_of(s: &str) -> (r: Vec<char>)
    ensures
        r@ == s@,
{
    let n = s.unicode_len();
    let mut acc: Vec<char> = Vec::new();
    let mut i: usize = 0;
    while i < n
        invariant
            n == s@.len(),
            i <= n,
            acc@ =~= s@.subrange(0, i as int),
        decreases n - i,
    {
        acc.push(s.get_char(i));
        i = i + 1;
        proof {
            assert(acc@ =~= s@.subrange(0, i as int));
        }
    }
    proof {
        assert(acc@ =~= s@);
    }
    acc
}

/// A string made of the given characters.
pub fn string_of(chars: &Vec<char>) -> (r: String)
    ensures
        r@ == chars@,
{
    let mut r = String::new();
    let mut i: usize = 0;
    while i < chars.len()
        invariant
            i <= chars@.len(),
            r@ =~= chars@.subrange(0, i as int),
        decreases chars@.len() - i,
    {
        push_char(&mut r, chars[i]);
        i = i + 1;
        proof {
            assert(r@ =~= chars@.subrange(0, i as int));
        }
    }
    proof {
        assert(r@ =~= chars@);
    }
    r
}

/// Whether `c` is stripped by sanitization.
pub fn is_forbidden(c: char) -> (r: bool)
    ensures
        r == is_forbidden_char(c),
{
    c == '<' || c == '>' || c == ':' || c == '"' || c == '/' || c == '\\' || c == '|' || c == '?'
        || c == '*'
}

/// Sanitizes a name for use as a path segment: every forbidden
/// character is removed (never substituted), and a remaining leading or
/// trailing dot is replaced by an underscore.
pub fn sanitize_name(s: &str) -> (r: String)
    ensures
        r@ == sanitized(s@),
{
    let n = s.unicode_len();
    let mut acc: Vec<char> = Vec::new();
    let mut i: usize = 0;
    while i < n
        invariant
            n == s@.len(),
            i <= n,
            acc@ == strip_forbidden(s@.subrange(0, i as int)),
        decreases n - i,
    {
        let c = s.get_char(i);
        if !is_forbidden(c) {
            acc.push(c);
        }
        i = i + 1;
        proof {
            assert(s@.subrange(0, i as int) =~= s@.subrange(0, i - 1).push(c));
            lemma_strip_push(s@.subrange(0, i - 1), c);
        }
    }
    proof {
        assert(s@.subrange(0, n as int) =~= s@);
    }
    if acc.len() > 0 {
        if acc[0] == '.' {
            acc.set(0, '_');
        }
    }
    if acc.len() > 0 {
        let last = acc.len() - 1;
        if acc[last] == '.' {
            acc.set(last, '_');
        }
    }
    proof {
        assert(acc@ =~= sanitized(s@));
    }
    string_of(&acc)
}

/// Exact equality of two string slices.
pub fn str_eq(a: &str, b: &str) -> (r: bool)
    ensures
        r == (a@ == b@),
{
    let n = a.unicode_len();
    if n != b.unicode_len() {
        return false;
    }
    let mut i: usize = 0;
    while i < n
        invariant
            n == a@.len(),
            n == b@.len(),
            i <= n,
            forall|j: int| 0 <= j < i ==> a@[j] == b@[j],
        decreases n - i,
    {
        if a.get_char(i) != b.get_char(i) {
            return false;
        }
        i = i + 1;
    }
    proof {
        assert(a@ =~= b@);
    }
    true
}

/// Equality of two string slices up to ASCII case.
pub fn eq_ignore(a: &str, b: &str) -> (r: bool)
    ensures
        r == eq_ignore_case(a@, b@),
{
    let n = a.unicode_len();
    if n != b.unicode_len() {
        return false;
    }
    let mut i: usize = 0;
    while i < n
        invariant
            n == a@.len(),
            n == b@.len(),
            i <= n,
            forall|j: int| 0 <= j < i ==> lower_code(a@[j]) == lower_code(b@[j]),
        decreases n - i,
    {
        let ca = a.get_char(i);
        let cb = b.get_char(i);
        let la: u32 = if 'A' as u32 <= ca as u32 && ca as u32 <= 'Z' as u32 {
            ca as u32 + 32
        } else {
            ca as u32
        };
        let lb: u32 = if 'A' as u32 <= cb as u32 && cb as u32 <= 'Z' as u32 {
            cb as u32 + 32
        } else {
            cb as u32
        };
        if la != lb {
            return false;
        }
        i = i + 1;
    }
    true
}

/// The character for one decimal digit.
pub fn digit_char_of(d: u16) -> (r: char)
    requires
        d < 10,
    ensures
        r == digit_char(d as nat),
{
    if d == 0 {
        '0'
    } else if d == 1 {
        '1'
    } else if d == 2 {
        '2'
    } else if d == 3 {
        '3'
    } else if d == 4 {
        '4'
    } else if d == 5 {
        '5'
    } else if d == 6 {
        '6'
    } else if d == 7 {
        '7'
    } else if d == 8 {
        '8'
    } else {
        '9'
    }
}

/// The track number as it appears in a planned file name: decimal,
/// left-padded with `0` to at least two digits.
pub fn track_chars(n: u16) -> (r: Vec<char>)
    ensures
        r@ == track_prefix(n),
{
    let mut acc: Vec<char> = Vec::new();
    let mut m: u16 = n;
    acc.insert(0, digit_char_of(m % 10));
    m = m / 10;
    while m > 0
        invariant
            m > 0 ==> dec_digits(n as nat) =~= dec_digits(m as nat) + acc@,
            m == 0 ==> dec_digits(n as nat) =~= acc@,
            acc@.len() >= 1,
        decreases m,
    {
        acc.insert(0, digit_char_of(m % 10));
        m = m / 10;
        proof {
            if m > 0 {
                assert(dec_digits(n as nat) =~= dec_digits(m as nat) + acc@);
            } else {
                assert(dec_digits(n as nat) =~= acc@);
            }
        }
    }
    if n < 10 {
        acc.insert(0, '0');
        proof {
            assert(acc@ =~= track_prefix(n));
        }
    } else {
        proof {
            assert(acc@ =~= track_prefix(n));
        }
    }
    acc
}

/// Appends every character of `s`.
pub fn push_all(acc: &mut Vec<char>, s: &str)
    ensures
        final(acc)@ == old(acc)@ + s@,
{
    let n = s.unicode_len();
    let mut i: usize = 0;
    while i < n
        invariant
            n == s@.len(),
            i <= n,
            acc@ =~= old(acc)@ + s@.subrange(0, i as int),
        decreases n - i,
    {
        acc.push(s.get_char(i));
        i = i + 1;
        proof {
            assert(acc@ =~= old(acc)@ + s@.subrange(0, i as int));
        }
    }
    proof {
        assert(acc@ =~= old(acc)@ + s@);
    }
}

/// Appends every character of `other`.
pub fn push_chars(acc: &mut Vec<char>, other: &Vec<char>)
    ensures
        final(acc)@ == old(acc)@ + other@,
{
    let n = other.len();
    let mut i: usize = 0;
    while i < n
        invariant
            n == other@.len(),
            i <= n,
            acc@ =~= old(acc)@ + other@.subrange(0, i as int),
        decreases n - i,
    {
        acc.push(other[i]);
        i = i + 1;
        proof {
            assert(acc@ =~= old(acc)@ + other@.subrange(0, i as int));
        }
    }
    proof {
        assert(acc@ =~= old(acc)@ + other@);
    }
}

/// `dir` and a child entry joined with a single separator.
pub fn joined(dir: &str, name: &str) -> (r: String)
    ensures
        r@ == join_path(dir@, name@),
{
    let mut acc: Vec<char> = Vec::new();
    push_all(&mut acc, dir);
    acc.push('/');
    push_all(&mut acc, name);
    proof {
        assert(acc@ =~= join_path(dir@, name@));
    }
    string_of(&acc)
}

/// The elements from position `from` on.
pub fn tail_from(v: &Vec<char>, from: usize) -> (r: Vec<char>)
    requires
        from <= v@.len(),
    ensures
        r@ == v@.subrange(from as int, v@.len() as int),
{
    let mut acc: Vec<char> = Vec::new();
    let mut i: usize = from;
    while i < v.len()
        invariant
            from <= i <= v@.len(),
            acc@ =~= v@.subrange(from as int, i as int),
        decreases v@.len() - i,
    {
        acc.push(v[i]);
        i = i + 1;
        proof {
            assert(acc@ =~= v@.subrange(from as int, i as int));
        }
    }
    acc
}

/// The position just after the last occurrence of `c`, or 0 when `c`
/// does not occur: the start of the suffix that follows the last `c`.
fn after_last(v: &Vec<char>, c: char) -> (r: usize)
    ensures
        r == last_index_of(v@, c) + 1,
        r <= v@.len(),
{
    proof {
        lemma_last_index_of_props(v@, c);
    }
    let mut i: usize = v.len();
    while i > 0
        invariant
            i <= v@.len(),
            forall|j: int| i <= j < v@.len() ==> v@[j] != c,
        decreases i,
    {
        if v[i - 1] == c {
            proof {
                lemma_last_index_of_unique(v@, c, i - 1);
            }
            return i;
        }
        i = i - 1;
    }
    proof {
        lemma_last_index_of_none(v@, c);
    }
    0
}

/// The final path component of `p`.
pub fn file_name_str(p: &str) -> (r: String)
    ensures
        r@ == file_name_of(p@),
{
    let chars = chars_of(p);
    let start = after_last(&chars, '/');
    let name = tail_from(&chars, start);
    string_of(&name)
}

/// The extension of the final component of `p`: everything after its
/// last dot.
pub fn extension_str(p: &str) -> (r: String)
    ensures
        r@ == extension_of(p@),
{
    let chars = chars_of(p);
    let start = after_last(&chars, '/');
    let name = tail_from(&chars, start);
    let ext_start = after_last(&name, '.');
    let ext = tail_from(&name, ext_start);
    string_of(&ext)
}

/// Whether `s` is one of the recognized audio file extensions.
pub fn is_music_extension(s: &str) -> (r: bool)
    ensures
        r == (s@ == "mp3"@ || s@ == "m4a"@ || s@ == "m4b"@ || s@ == "m4p"@ || s@ == "m4v"@),
{
    str_eq(s, "mp3") || str_eq(s, "m4a") || str_eq(s, "m4b") || str_eq(s, "m4p") || str_eq(
        s,
        "m4v",
    )
}

} // verus!

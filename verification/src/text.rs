//! Character-level helpers shared by the rest of the library: building
//! strings, trimming, ASCII case folding and decimal rendering.
use vstd::prelude::*;

verus! {

broadcast use vstd::string::group_string_axioms;

/// Appends one character to a string (`String::push`).
#[verifier::external_body]
pub(crate) fn push_char(s: &mut String, c: char)
    ensures
        final(s)@ == old(s)@.push(c),
{
    s.push(c);
}

/// An owned copy of a string slice.
pub fn owned(s: &str) -> (r: String)
    ensures
        r@ == s@,
{
    let mut r = String::new();
    r.append(s);
    r
}

/// The characters of a string slice, in order.
pub fn chars_of(s: &str) -> (v: Vec<char>)
    ensures
        v@ == s@,
{
    let mut v: Vec<char> = Vec::new();
    for c in it: s.chars()
        invariant
            v@ == it.seq().take(it.index() as int),
    {
        v.push(c);
    }
    v
}

/// The string made of the given characters.
pub fn string_of(v: &Vec<char>) -> (r: String)
    ensures
        r@ == v@,
{
    let mut r = String::new();
    let mut i: usize = 0;
    while i < v.len()
        invariant
            i <= v.len(),
            r@ == v@.take(i as int),
        decreases v.len() - i,
    {
        push_char(&mut r, v[i]);
        i = i + 1;
        assert(r@ =~= v@.take(i as int));
    }
    assert(v@.take(v.len() as int) =~= v@);
    r
}

/// The string made of the characters `v[from..to]`.
pub fn string_of_range(v: &Vec<char>, from: usize, to: usize) -> (r: String)
    requires
        from <= to <= v.len(),
    ensures
        r@ == v@.subrange(from as int, to as int),
{
    let mut r = String::new();
    let mut i: usize = from;
    while i < to
        invariant
            from <= i <= to <= v.len(),
            r@ == v@.subrange(from as int, i as int),
        decreases to - i,
    {
        push_char(&mut r, v[i]);
        i = i + 1;
        assert(r@ =~= v@.subrange(from as int, i as int));
    }
    r
}

/// Concatenation of two string slices.
pub fn concat2(a: &str, b: &str) -> (r: String)
    ensures
        r@ == a@ + b@,
{
    let mut r = owned(a);
    r.append(b);
    r
}

/// Concatenation of three string slices.
pub fn concat3(a: &str, b: &str, c: &str) -> (r: String)
    ensures
        r@ == a@ + b@ + c@,
{
    let mut r = owned(a);
    r.append(b);
    r.append(c);
    r
}

/// Unicode `White_Space` characters, the set that `char::is_whitespace`,
/// `str::trim` and `str::split_whitespace` use.
pub open spec fn is_white_space(c: char) -> bool {
    let u = c as u32;
    ||| (0x9 <= u && u <= 0xD)
    ||| u == 0x20
    ||| u == 0x85
    ||| u == 0xA0
    ||| u == 0x1680
    ||| (0x2000 <= u && u <= 0x200A)
    ||| u == 0x2028
    ||| u == 0x2029
    ||| u == 0x202F
    ||| u == 0x205F
    ||| u == 0x3000
}

/// Whether `c` is a Unicode white-space character.
pub fn is_whitespace(c: char) -> (b: bool)
    ensures
        b == is_white_space(c),
{
    let u = c as u32;
    (0x9 <= u && u <= 0xD) || u == 0x20 || u == 0x85 || u == 0xA0 || u == 0x1680 || (0x2000
        <= u && u <= 0x200A) || u == 0x2028 || u == 0x2029 || u == 0x202F || u == 0x205F || u
        == 0x3000
}

/// `s` without its leading white space.
pub open spec fn trim_start_seq(s: Seq<char>) -> Seq<char>
    decreases s.len(),
{
    if s.len() > 0 && is_white_space(s[0]) {
        trim_start_seq(s.drop_first())
    } else {
        s
    }
}

/// `s` without its trailing white space.
pub open spec fn trim_end_seq(s: Seq<char>) -> Seq<char>
    decreases s.len(),
{
    if s.len() > 0 && is_white_space(s.last()) {
        trim_end_seq(s.drop_last())
    } else {
        s
    }
}

/// `s` without leading and trailing white space (`str::trim`).
pub open spec fn trim_seq(s: Seq<char>) -> Seq<char> {
    trim_end_seq(trim_start_seq(s))
}

/// Index of the first character of `v` from `from` on that is not white space
/// (or `v.len()`), and the proof that skipping up to it is `trim_start_seq`.
fn skip_white_space(v: &Vec<char>, from: usize) -> (i: usize)
    requires
        from <= v.len(),
    ensures
        from <= i <= v.len(),
        trim_start_seq(v@.skip(from as int)) == v@.skip(i as int),
        forall|k: int| from <= k < i ==> is_white_space(#[trigger] v@[k]),
        i < v.len() ==> !is_white_space(v@[i as int]),
{
    let mut i = from;
    while i < v.len() && is_whitespace(v[i])
        invariant
            from <= i <= v.len(),
            trim_start_seq(v@.skip(from as int)) == trim_start_seq(v@.skip(i as int)),
            forall|k: int| from <= k < i ==> is_white_space(#[trigger] v@[k]),
        decreases v.len() - i,
    {
        assert(v@.skip(i as int).drop_first() =~= v@.skip(i + 1));
        i = i + 1;
    }
    i
}

/// `v[from..to]` without its trailing white space: the new end index.
fn trim_end_index(v: &Vec<char>, from: usize, to: usize) -> (j: usize)
    requires
        from <= to <= v.len(),
    ensures
        from <= j <= to,
        trim_end_seq(v@.subrange(from as int, to as int)) == v@.subrange(from as int, j as int),
{
    let mut j = to;
    while j > from && is_whitespace(v[j - 1])
        invariant
            from <= j <= to <= v.len(),
            trim_end_seq(v@.subrange(from as int, to as int)) == trim_end_seq(
                v@.subrange(from as int, j as int),
            ),
        decreases j,
    {
        assert(v@.subrange(from as int, j as int).drop_last() =~= v@.subrange(
            from as int,
            j - 1,
        ));
        j = j - 1;
    }
    j
}

/// `s` without leading and trailing white space.
pub fn trim(s: &str) -> (r: String)
    ensures
        r@ == trim_seq(s@),
{
    let v = chars_of(s);
    let i = skip_white_space(&v, 0);
    assert(v@.skip(0) =~= v@);
    assert(v@.skip(i as int) =~= v@.subrange(i as int, v.len() as int));
    let j = trim_end_index(&v, i, v.len());
    string_of_range(&v, i, j)
}

/// ASCII lower-case of one character (`char::to_ascii_lowercase`).
pub open spec fn ascii_lower(c: char) -> char {
    if 'A' <= c && c <= 'Z' {
        ((c as u32) + 32) as char
    } else {
        c
    }
}

/// ASCII lower-case of a character sequence (`str::to_ascii_lowercase`).
pub open spec fn ascii_lower_seq(s: Seq<char>) -> Seq<char> {
    Seq::new(s.len(), |i: int| ascii_lower(s[i]))
}

/// The ASCII lower-case form of one character.
pub fn to_ascii_lower_char(c: char) -> (r: char)
    ensures
        r == ascii_lower(c),
{
    if 'A' <= c && c <= 'Z' {
        let u: u32 = (c as u32) + 32;
        assert(u < 0xD800) by {
            assert((c as u32) <= 'Z' as u32);
        }
        char_from_ascii_code(u)
    } else {
        c
    }
}

/// The character with the given code (`char::from_u32`): every code below
/// the surrogate range is a character, so the call gives one, the character
/// with that code.
#[verifier::external_body]
fn char_from_ascii_code(u: u32) -> (c: char)
    requires
        u < 0xD800,
    ensures
        c == u as char,
{
    char::from_u32(u).unwrap()
}

/// The ASCII lower-case form of a string.
pub fn to_ascii_lowercase(s: &str) -> (r: String)
    ensures
        r@ == ascii_lower_seq(s@),
{
    let v = chars_of(s);
    let mut r = String::new();
    let mut i: usize = 0;
    while i < v.len()
        invariant
            i <= v.len(),
            v@ == s@,
            r@ =~= ascii_lower_seq(v@.take(i as int)),
        decreases v.len() - i,
    {
        let c = to_ascii_lower_char(v[i]);
        push_char(&mut r, c);
        i = i + 1;
        assert(r@ =~= ascii_lower_seq(v@.take(i as int)));
    }
    assert(v@.take(v.len() as int) =~= v@);
    r
}

/// The decimal digit character for `d < 10`.
pub open spec fn digit_char(d: nat) -> char {
    if d == 0 {
        '0'
    } else if d == 1 {
        '1'
    } else if d == 2 {
        '2'
    } else if d == 3 {
        '3'
    } else if d == 4 {
        '4'
    } else if d == 5 {
        '5'
    } else if d == 6 {
        '6'
    } else if d == 7 {
        '7'
    } else if d == 8 {
        '8'
    } else {
        '9'
    }
}

/// Decimal rendering of a natural number, without leading zeros.
pub open spec fn decimal(n: nat) -> Seq<char>
    decreases n,
{
    if n < 10 {
        seq![digit_char(n)]
    } else {
        decimal(n / 10).push(digit_char(n % 10))
    }
}

/// Decimal rendering of an integer, with a leading `-` when negative
/// (what `Display` prints for integers).
pub open spec fn decimal_int(i: int) -> Seq<char> {
    if i < 0 {
        seq!['-'] + decimal((-i) as nat)
    } else {
        decimal(i as nat)
    }
}

fn digit(d: u64) -> (c: char)
    requires
        d < 10,
    ensures
        c == digit_char(d as nat),
{
    if d == 0 {
        '0'
    } else if d == 1 {
        '1'
    } else if d == 2 {
        '2'
    } else if d == 3 {
        '3'
    } else if d == 4 {
        '4'
    } else if d == 5 {
        '5'
    } else if d == 6 {
        '6'
    } else if d == 7 {
        '7'
    } else if d == 8 {
        '8'
    } else {
        '9'
    }
}

/// Appends the decimal rendering of `n` to `s`.
fn push_decimal(s: &mut String, n: u64)
    ensures
        final(s)@ == old(s)@ + decimal(n as nat),
    decreases n,
{
    if n < 10 {
        push_char(s, digit(n));
        assert(final(s)@ =~= old(s)@ + decimal(n as nat));
    } else {
        push_decimal(s, n / 10);
        push_char(s, digit(n % 10));
        assert(final(s)@ =~= old(s)@ + decimal(n as nat));
    }
}

/// The decimal rendering of an unsigned number.
pub fn format_u64(n: u64) -> (r: String)
    ensures
        r@ == decimal(n as nat),
{
    let mut r = String::new();
    push_decimal(&mut r, n);
    assert(r@ =~= decimal(n as nat));
    r
}

/// The decimal rendering of a signed number.
pub fn format_i64(i: i64) -> (r: String)
    ensures
        r@ == decimal_int(i as int),
{
    let mut r = String::new();
    if i < 0 {
        push_char(&mut r, '-');
        let m: u64 = if i == i64::MIN {
            9223372036854775808u64
        } else {
            (-i) as u64
        };
        push_decimal(&mut r, m);
        assert(r@ =~= decimal_int(i as int));
    } else {
        push_decimal(&mut r, i as u64);
        assert(r@ =~= decimal_int(i as int));
    }
    r
}

/// `k` zero digits.
pub open spec fn zeros(k: nat) -> Seq<char> {
    Seq::new(k, |_i: int| '0')
}

/// `digits` with zeros put in front until it is `width` long (unchanged
/// when it is already that long or longer).
pub open spec fn zero_padded(digits: Seq<char>, width: nat) -> Seq<char> {
    if digits.len() < width {
        zeros((width - digits.len()) as nat) + digits
    } else {
        digits
    }
}

/// Appends the decimal rendering of `n`, zero-padded to `width` digits.
pub fn push_padded_decimal(s: &mut String, n: u64, width: usize)
    ensures
        final(s)@ == old(s)@ + zero_padded(decimal(n as nat), width as nat),
{
    let digits = format_u64(n);
    let len = digits.unicode_len();
    let ghost start = s@;
    let mut i = len;
    while i < width
        invariant
            len == digits@.len(),
            len <= i,
            len < width ==> i <= width,
            len >= width ==> i == len,
            s@ == start + zeros((i - len) as nat),
        decreases width - i,
    {
        push_char(s, '0');
        i = i + 1;
        assert(s@ =~= start + zeros((i - len) as nat));
    }
    let ghost before = s@;
    s.append(digits.as_str());
    proof {
        if len < width {
            assert(i == width);
            assert(zero_padded(decimal(n as nat), width as nat) == zeros((width - len) as nat) + digits@);
            assert(s@ =~= start + zero_padded(decimal(n as nat), width as nat));
        } else {
            assert(zeros((i - len) as nat) =~= Seq::<char>::empty());
            assert(before =~= start);
            assert(s@ =~= start + zero_padded(decimal(n as nat), width as nat));
        }
    }
}

/// The tab-separated fields of a line, in order (a line without a tab is
/// one field).
pub open spec fn tab_fields(s: Seq<char>) -> Seq<Seq<char>>
    decreases s.len(),
{
    if s.len() == 0 {
        seq![Seq::<char>::empty()]
    } else {
        let rest = tab_fields(s.drop_last());
        if s.last() == '\t' {
            rest.push(Seq::<char>::empty())
        } else {
            rest.update(rest.len() - 1, rest.last().push(s.last()))
        }
    }
}

/// A text that holds no tab, so it stays one field in a tab-separated line.
pub open spec fn has_no_tab(s: Seq<char>) -> bool {
    forall|k: int| 0 <= k < s.len() ==> s[k] != '\t'
}

/// Every line has at least one field.
pub proof fn lemma_tab_fields_nonempty(s: Seq<char>)
    ensures
        tab_fields(s).len() >= 1,
    decreases s.len(),
{
    if s.len() > 0 {
        lemma_tab_fields_nonempty(s.drop_last());
    }
}

/// A text without a tab is a single field.
pub proof fn lemma_tab_fields_plain(s: Seq<char>)
    requires
        has_no_tab(s),
    ensures
        tab_fields(s) == seq![s],
    decreases s.len(),
{
    if s.len() > 0 {
        let p = s.drop_last();
        assert(has_no_tab(p)) by {
            assert forall|k: int| 0 <= k < p.len() implies p[k] != '\t' by {
                assert(p[k] == s[k]);
            }
        }
        lemma_tab_fields_plain(p);
        assert(s.last() == s[s.len() - 1]);
        assert(p.push(s.last()) =~= s);
        assert(s.last() != '\t');
        assert(seq![p].update(0, p.push(s.last())) =~= seq![s]);
    } else {
        assert(s =~= Seq::<char>::empty());
    }
}

/// Joining two lines with a tab joins their fields.
pub proof fn lemma_tab_fields_split(a: Seq<char>, b: Seq<char>)
    ensures
        tab_fields(a + seq!['\t'] + b) == tab_fields(a) + tab_fields(b),
    decreases b.len(),
{
    let ab = a + seq!['\t'] + b;
    if b.len() == 0 {
        assert(ab.drop_last() =~= a);
        assert(ab.last() == '\t');
        assert(tab_fields(a).push(Seq::<char>::empty()) =~= tab_fields(a) + seq![Seq::<char>::empty()]);
    } else {
        let b0 = b.drop_last();
        let c = b.last();
        lemma_tab_fields_split(a, b0);
        assert(ab.drop_last() =~= a + seq!['\t'] + b0);
        assert(ab.last() == c);
        lemma_tab_fields_nonempty(b0);
        let fa = tab_fields(a);
        let fb0 = tab_fields(b0);
        let rest = fa + fb0;
        if c == '\t' {
            assert(rest.push(Seq::<char>::empty()) =~= fa + fb0.push(Seq::<char>::empty()));
        } else {
            assert(rest.last() == fb0.last());
            assert(rest.update(rest.len() - 1, rest.last().push(c)) =~= fa + fb0.update(
                fb0.len() - 1,
                fb0.last().push(c),
            ));
        }
    }
}

/// Fields joined into one line with a tab between each two.
pub open spec fn tab_joined(fs: Seq<Seq<char>>) -> Seq<char>
    decreases fs.len(),
{
    if fs.len() == 0 {
        Seq::empty()
    } else if fs.len() == 1 {
        fs[0]
    } else {
        tab_joined(fs.drop_last()) + seq!['\t'] + fs.last()
    }
}

/// Splitting a line made of tab-free fields joined by tabs gives the fields
/// back.
pub proof fn lemma_tab_joined_fields(fs: Seq<Seq<char>>)
    requires
        fs.len() >= 1,
        forall|k: int| 0 <= k < fs.len() ==> has_no_tab(#[trigger] fs[k]),
    ensures
        tab_fields(tab_joined(fs)) == fs,
    decreases fs.len(),
{
    if fs.len() == 1 {
        lemma_tab_fields_plain(fs[0]);
        assert(fs =~= seq![fs[0]]);
    } else {
        let p = fs.drop_last();
        assert forall|k: int| 0 <= k < p.len() implies has_no_tab(#[trigger] p[k]) by {
            assert(p[k] == fs[k]);
        }
        lemma_tab_joined_fields(p);
        assert(has_no_tab(fs[fs.len() - 1]));
        lemma_tab_fields_plain(fs.last());
        lemma_tab_fields_split(tab_joined(p), fs.last());
        assert(p + seq![fs.last()] =~= fs);
    }
}

/// A decimal rendering holds no tab.
pub proof fn lemma_decimal_no_tab(n: nat)
    ensures
        has_no_tab(decimal(n)),
    decreases n,
{
    if n >= 10 {
        lemma_decimal_no_tab(n / 10);
        let d = decimal(n);
        assert forall|k: int| 0 <= k < d.len() implies d[k] != '\t' by {
            if k < d.len() - 1 {
                assert(d[k] == decimal(n / 10)[k]);
            }
        }
    }
}

/// A signed decimal rendering holds no tab.
pub proof fn lemma_decimal_int_no_tab(i: int)
    ensures
        has_no_tab(decimal_int(i)),
{
    if i < 0 {
        lemma_decimal_no_tab((-i) as nat);
        let d = decimal_int(i);
        assert forall|k: int| 0 <= k < d.len() implies d[k] != '\t' by {
            if k > 0 {
                assert(d[k] == decimal((-i) as nat)[k - 1]);
            }
        }
    } else {
        lemma_decimal_no_tab(i as nat);
    }
}

/// The decimal rendering of a length.
pub fn format_usize(n: usize) -> (r: String)
    ensures
        r@ == decimal(n as nat),
{
    format_u64(n as u64)
}

/// A decimal rendering is never empty.
pub proof fn lemma_decimal_nonempty(n: nat)
    ensures
        decimal(n).len() >= 1,
        n >= 10 ==> decimal(n).len() >= 2,
    decreases n,
{
    if n >= 10 {
        lemma_decimal_nonempty(n / 10);
    }
}

proof fn lemma_digit_char_injective(a: nat, b: nat)
    requires
        a < 10,
        b < 10,
        digit_char(a) == digit_char(b),
    ensures
        a == b,
{
}

/// Distinct numbers have distinct decimal renderings.
pub proof fn lemma_decimal_injective(a: nat, b: nat)
    requires
        decimal(a) == decimal(b),
    ensures
        a == b,
    decreases a,
{
    lemma_decimal_nonempty(a);
    lemma_decimal_nonempty(b);
    if a < 10 && b < 10 {
        assert(decimal(a)[0] == digit_char(a));
        assert(decimal(b)[0] == digit_char(b));
        lemma_digit_char_injective(a, b);
    } else if a < 10 {
        assert(decimal(a).len() == 1);
    } else if b < 10 {
        assert(decimal(b).len() == 1);
    } else {
        let da = decimal(a / 10);
        let db = decimal(b / 10);
        assert(decimal(a) == da.push(digit_char(a % 10)));
        assert(decimal(b) == db.push(digit_char(b % 10)));
        assert(decimal(a).last() == digit_char(a % 10));
        assert(decimal(b).last() == digit_char(b % 10));
        lemma_digit_char_injective(a % 10, b % 10);
        assert(decimal(a).drop_last() =~= da);
        assert(decimal(b).drop_last() =~= db);
        lemma_decimal_injective(a / 10, b / 10);
    }
}

/// Decimal renderings hold digits only.
pub proof fn lemma_decimal_digits(n: nat)
    ensures
        forall|k: int| 0 <= k < decimal(n).len() ==> '0' <= #[trigger] decimal(n)[k] <= '9',
    decreases n,
{
    if n >= 10 {
        lemma_decimal_digits(n / 10);
        assert forall|k: int| 0 <= k < decimal(n).len() implies '0' <= #[trigger] decimal(
            n,
        )[k] <= '9' by {
            if k < decimal(n / 10).len() {
                assert(decimal(n)[k] == decimal(n / 10)[k]);
            }
        }
    }
}

/// Whether two strings hold the same characters.
pub fn str_eq(a: &str, b: &str) -> (r: bool)
    ensures
        r == (a@ == b@),
{
    let va = chars_of(a);
    let vb = chars_of(b);
    if va.len() != vb.len() {
        return false;
    }
    let mut i: usize = 0;
    while i < va.len()
        invariant
            va.len() == vb.len(),
            va@ == a@,
            vb@ == b@,
            i <= va.len(),
            forall|k: int| 0 <= k < i ==> va@[k] == vb@[k],
        decreases va.len() - i,
    {
        if va[i] != vb[i] {
            assert(va@[i as int] != vb@[i as int]);
            assert(va@ != vb@);
            return false;
        }
        i = i + 1;
    }
    assert(va@ =~= vb@);
    true
}

/// Whether `p` is a prefix of `s`.
pub open spec fn is_prefix(p: Seq<char>, s: Seq<char>) -> bool {
    p.len() <= s.len() && s.take(p.len() as int) == p
}

/// Whether `s` starts with `p`.
pub fn starts_with(s: &str, p: &str) -> (r: bool)
    ensures
        r == is_prefix(p@, s@),
{
    let vs = chars_of(s);
    let vp = chars_of(p);
    if vp.len() > vs.len() {
        return false;
    }
    let mut i: usize = 0;
    while i < vp.len()
        invariant
            vp.len() <= vs.len(),
            vs@ == s@,
            vp@ == p@,
            i <= vp.len(),
            forall|k: int| 0 <= k < i ==> vs@[k] == vp@[k],
        decreases vp.len() - i,
    {
        if vs[i] != vp[i] {
            assert(vs@.take(vp.len() as int)[i as int] != vp@[i as int]);
            assert(vs@.take(vp.len() as int) != vp@);
            return false;
        }
        i = i + 1;
    }
    assert(vs@.take(vp.len() as int) =~= vp@);
    true
}

} // verus!

use vstd::prelude::*;

verus! {

/// Relies on `String::push`: appends one character to the end of the string.
#[verifier::external_body]
fn push_char(s: &mut String, c: char)
    ensures
        final(s)@ == old(s)@.push(c),
{
    s.push(c)
}

/// The characters of a string slice, in order.
pub fn chars_of(s: &str) -> (r: Vec<char>)
    ensures
        r@ == s@,
{
    let n = s.unicode_len();
    let mut out: Vec<char> = Vec::new();
    let mut i: usize = 0;
    while i < n
        invariant
            n == s@.len(),
            i <= n,
            out@ == s@.subrange(0, i as int),
        decreases n - i,
    {
        out.push(s.get_char(i));
        i += 1;
    }
    assert(out@ =~= s@);
    out
}

/// A string holding the given characters.
pub fn string_of(cs: &Vec<char>) -> (r: String)
    ensures
        r@ == cs@,
{
    let mut out = String::new();
    let mut i: usize = 0;
    while i < cs.len()
        invariant
            i <= cs@.len(),
            out@ == cs@.subrange(0, i as int),
        decreases cs.len() - i,
    {
        push_char(&mut out, cs[i]);
        i += 1;
        assert(out@ =~= cs@.subrange(0, i as int));
    }
    assert(out@ =~= cs@);
    out
}

/// Whether two string slices hold the same characters.
pub fn same_text(a: &str, b: &str) -> (r: bool)
    ensures
        r == (a@ == b@),
{
    let n = a.unicode_len();
    if n != b.unicode_len() {
        return false;
    }
    let mut i: usize = 0;
    while i < n
        invariant
            n == a@.len(),
            n == b@.len(),
            i <= n,
            a@.subrange(0, i as int) == b@.subrange(0, i as int),
        decreases n - i,
    {
        if a.get_char(i) != b.get_char(i) {
            assert(a@[i as int] != b@[i as int]);
            return false;
        }
        assert(a@.subrange(0, i + 1) =~= a@.subrange(0, i as int).push(a@[i as int]));
        assert(b@.subrange(0, i + 1) =~= b@.subrange(0, i as int).push(b@[i as int]));
        i += 1;
    }
    assert(a@ =~= a@.subrange(0, n as int));
    assert(b@ =~= b@.subrange(0, n as int));
    true
}

/// The unaccented form of an accented Latin letter; any other character is its own form.
pub open spec fn unaccented(c: char) -> char {
    match c {
        'á' | 'à' | 'ä' | 'â' | 'ã' => 'a',
        'é' | 'è' | 'ë' | 'ê' => 'e',
        'í' | 'ì' | 'ï' | 'î' => 'i',
        'ó' | 'ò' | 'ö' | 'ô' | 'õ' => 'o',
        'ú' | 'ù' | 'ü' | 'û' => 'u',
        'ć' | 'č' | 'ç' => 'c',
        'ñ' => 'n',
        'š' => 's',
        'ž' => 'z',
        'ý' | 'ÿ' => 'y',
        'đ' => 'd',
        'Á' | 'À' | 'Ä' | 'Â' | 'Ã' => 'A',
        'É' | 'È' | 'Ë' | 'Ê' => 'E',
        'Í' | 'Ì' | 'Ï' | 'Î' => 'I',
        'Ó' | 'Ò' | 'Ö' | 'Ô' | 'Õ' => 'O',
        'Ú' | 'Ù' | 'Ü' | 'Û' => 'U',
        'Ć' | 'Č' | 'Ç' => 'C',
        'Ñ' => 'N',
        'Š' => 'S',
        'Ž' => 'Z',
        'Ý' | 'Ÿ' => 'Y',
        'Đ' => 'D',
        _ => c,
    }
}

/// A name with every accented letter replaced by its unaccented form.
pub open spec fn normalized(s: Seq<char>) -> Seq<char> {
    s.map_values(|c: char| unaccented(c))
}

fn unaccent(c: char) -> (r: char)
    ensures
        r == unaccented(c),
{
    match c {
        'á' | 'à' | 'ä' | 'â' | 'ã' => 'a',
        'é' | 'è' | 'ë' | 'ê' => 'e',
        'í' | 'ì' | 'ï' | 'î' => 'i',
        'ó' | 'ò' | 'ö' | 'ô' | 'õ' => 'o',
        'ú' | 'ù' | 'ü' | 'û' => 'u',
        'ć' | 'č' | 'ç' => 'c',
        'ñ' => 'n',
        'š' => 's',
        'ž' => 'z',
        'ý' | 'ÿ' => 'y',
        'đ' => 'd',
        'Á' | 'À' | 'Ä' | 'Â' | 'Ã' => 'A',
        'É' | 'È' | 'Ë' | 'Ê' => 'E',
        'Í' | 'Ì' | 'Ï' | 'Î' => 'I',
        'Ó' | 'Ò' | 'Ö' | 'Ô' | 'Õ' => 'O',
        'Ú' | 'Ù' | 'Ü' | 'Û' => 'U',
        'Ć' | 'Č' | 'Ç' => 'C',
        'Ñ' => 'N',
        'Š' => 'S',
        'Ž' => 'Z',
        'Ý' | 'Ÿ' => 'Y',
        'Đ' => 'D',
        _ => c,
    }
}

/// Strips accents so that a name recorded with diacritics ("Luka Dončić")
/// matches its plain spelling ("Luka Doncic").
pub fn normalize_name(name: &str) -> (r: String)
    ensures
        r@ == normalized(name@),
{
    let cs = chars_of(name);
    let mut out: Vec<char> = Vec::new();
    let mut i: usize = 0;
    while i < cs.len()
        invariant
            i <= cs@.len(),
            cs@ == name@,
            out@ == normalized(cs@.subrange(0, i as int)),
        decreases cs.len() - i,
    {
        out.push(unaccent(cs[i]));
        i += 1;
        assert(out@ =~= normalized(cs@.subrange(0, i as int)));
    }
    assert(cs@ =~= cs@.subrange(0, cs@.len() as int));
    string_of(&out)
}

/// Normalizing is idempotent: a normalized name is its own normal form.
pub proof fn law_normalize_idempotent(s: Seq<char>)
    ensures
        normalized(normalized(s)) == normalized(s),
{
    assert(normalized(normalized(s)) =~= normalized(s));
}

} // verus!

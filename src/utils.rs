use vstd::prelude::*;
use vstd::string::StringSliceAdditionalSpecFns;

use crate::engine::{parse_url_host, url_host};
use crate::error::AuboError;
use crate::text::{
    chars_of, contains, contains_chars, ends_with, ends_with_chars, split, split_chars,
    starts_with, starts_with_chars, string_of, trim, trim_chars, Separator,
};

verus! {

/// Relies on `regex::Regex::new` and `regex::Regex::is_match`: `None` where
/// `source` is no valid expression, else whether it matches somewhere in
/// `text`.
pub uninterp spec fn regex_match(source: Seq<char>, text: Seq<char>) -> Option<bool>;

/// Relies on `regex::Regex::new` and `regex::Regex::is_match`.
#[verifier::external_body]
fn regex_is_match(source: &str, text: &str) -> (r: Option<bool>)
    ensures
        r == regex_match(source@, text@),
{
    match regex::Regex::new(source) {
        Ok(re) => Some(re.is_match(text)),
        Err(_) => None,
    }
}

/// The expression text that one wildcard character stands for: `.` is
/// literal, `*` is any run, `?` any one character.
pub open spec fn wildcard_piece(c: char) -> Seq<char> {
    if c == '.' {
        seq!['\\', '.']
    } else if c == '*' {
        seq!['.', '*']
    } else if c == '?' {
        seq!['.']
    } else {
        seq![c]
    }
}

pub open spec fn wildcard_body(p: Seq<char>) -> Seq<char>
    decreases p.len(),
{
    if p.len() == 0 {
        Seq::empty()
    } else {
        wildcard_body(p.drop_last()) + wildcard_piece(p.last())
    }
}

/// The anchored expression a wildcard pattern is compiled to.
pub open spec fn wildcard_source(p: Seq<char>) -> Seq<char> {
    seq!['^'] + wildcard_body(p) + seq!['$']
}

/// Whether a wildcard pattern matches the whole of `text`; a pattern whose
/// expression does not compile matches nothing.
pub open spec fn wildcard_matches(pattern: Seq<char>, text: Seq<char>) -> bool {
    regex_match(wildcard_source(pattern), text) == Some(true)
}

/// The anchored expression for a wildcard pattern.
pub fn wildcard_regex_source(pattern: &str) -> (r: String)
    ensures
        r@ == wildcard_source(pattern@),
{
    let p = chars_of(pattern);
    let mut out: Vec<char> = Vec::new();
    out.push('^');
    let mut i: usize = 0;
    assert(p@.take(0) =~= Seq::<char>::empty());
    while i < p.len()
        invariant
            i <= p@.len(),
            p@ == pattern@,
            out@ == seq!['^'] + wildcard_body(p@.take(i as int)),
        decreases p@.len() - i,
    {
        let c = p[i];
        let ghost before = out@;
        if c == '.' {
            out.push('\\');
            out.push('.');
        } else if c == '*' {
            out.push('.');
            out.push('*');
        } else if c == '?' {
            out.push('.');
        } else {
            out.push(c);
        }
        assert(p@.take(i + 1).drop_last() =~= p@.take(i as int));
        assert(out@ =~= before + wildcard_piece(c));
        i = i + 1;
    }
    out.push('$');
    assert(p@.take(p@.len() as int) =~= p@);
    string_of(out.as_slice())
}

/// Whether `url` matches the wildcard `pattern` as a whole.
pub fn matches_wildcard_pattern(url: &str, pattern: &str) -> (r: bool)
    ensures
        r == wildcard_matches(pattern@, url@),
{
    let source = wildcard_regex_source(pattern);
    match regex_is_match(source.as_str(), url) {
        Some(m) => m,
        None => false,
    }
}

/// The last dot-separated label of a domain (the whole name where it has
/// no dot).
pub fn extract_tld(domain: &str) -> (r: Option<String>)
    ensures
        r matches Some(t) && t@ == split(domain@, Separator::Dot).last(),
{
    let pieces = split_chars(&chars_of(domain), Separator::Dot);
    proof {
        crate::text::lemma_split_nonempty(domain@, Separator::Dot);
    }
    let last = pieces.len() - 1;
    Some(string_of(pieces[last].as_slice()))
}

/// Whether `subdomain` is `parent_domain` or lies under it.
pub fn is_subdomain_of(subdomain: &str, parent_domain: &str) -> (r: bool)
    ensures
        r == (subdomain@ == parent_domain@ || ends_with(subdomain@, seq!['.'] + parent_domain@)),
{
    let s = chars_of(subdomain);
    let p = chars_of(parent_domain);
    if crate::text::chars_eq(&s, &p) {
        return true;
    }
    let mut dotted: Vec<char> = Vec::new();
    dotted.push('.');
    let mut i: usize = 0;
    while i < p.len()
        invariant
            i <= p@.len(),
            dotted@ == seq!['.'] + p@.take(i as int),
        decreases p@.len() - i,
    {
        dotted.push(p[i]);
        assert(dotted@ =~= seq!['.'] + p@.take(i + 1));
        i = i + 1;
    }
    assert(p@.take(p@.len() as int) =~= p@);
    ends_with_chars(&s, &dotted)
}

/// The decimal digit for `d` below ten.
pub open spec fn digit(d: nat) -> char {
    if d < 10 {
        ((d + 48) as u8) as char
    } else {
        '?'
    }
}

/// The decimal writing of `n`, without leading zeros.
pub open spec fn decimal(n: nat) -> Seq<char>
    decreases n,
{
    if n < 10 {
        seq![digit(n)]
    } else {
        decimal(n / 10) + seq![digit(n % 10)]
    }
}

fn push_decimal(out: &mut Vec<char>, n: u64)
    ensures
        final(out)@ == old(out)@ + decimal(n as nat),
    decreases n,
{
    if n >= 10 {
        push_decimal(out, n / 10);
    }
    let d = (n % 10) as u8;
    out.push((d + 48) as char);
    assert(digit((n % 10) as nat) == ((d + 48) as u8) as char);
    assert(out@ =~= old(out)@ + decimal(n as nat));
}

/// The decimal writing of `n`.
pub fn decimal_string(n: u64) -> (r: String)
    ensures
        r@ == decimal(n as nat),
{
    let mut out: Vec<char> = Vec::new();
    push_decimal(&mut out, n);
    assert(out@ =~= decimal(n as nat));
    string_of(out.as_slice())
}

/// `3d 4h 5m 6s`, leaving out the leading units that are zero.
pub open spec fn duration_text(total: nat) -> Seq<char> {
    let days = total / 86400;
    let hours = (total % 86400) / 3600;
    let minutes = (total % 3600) / 60;
    let seconds = total % 60;
    if days > 0 {
        decimal(days) + seq!['d', ' '] + decimal(hours) + seq!['h', ' '] + decimal(minutes) + seq![
            'm',
            ' ',
        ] + decimal(seconds) + seq!['s']
    } else if hours > 0 {
        decimal(hours) + seq!['h', ' '] + decimal(minutes) + seq!['m', ' '] + decimal(seconds)
            + seq!['s']
    } else if minutes > 0 {
        decimal(minutes) + seq!['m', ' '] + decimal(seconds) + seq!['s']
    } else {
        decimal(seconds) + seq!['s']
    }
}

/// Relies on `Duration::as_secs`: the whole seconds of the span.
pub assume_specification[ core::time::Duration::as_secs ](d: &core::time::Duration) -> u64;

/// The text of a span of `total_seconds` seconds.
pub fn format_duration_seconds(total_seconds: u64) -> (r: String)
    ensures
        r@ == duration_text(total_seconds as nat),
{
    let days = total_seconds / 86400;
    let hours = (total_seconds % 86400) / 3600;
    let minutes = (total_seconds % 3600) / 60;
    let seconds = total_seconds % 60;
    let mut out: Vec<char> = Vec::new();
    if days > 0 {
        push_decimal(&mut out, days);
        out.push('d');
        out.push(' ');
    }
    if days > 0 || hours > 0 {
        push_decimal(&mut out, hours);
        out.push('h');
        out.push(' ');
    }
    if days > 0 || hours > 0 || minutes > 0 {
        push_decimal(&mut out, minutes);
        out.push('m');
        out.push(' ');
    }
    push_decimal(&mut out, seconds);
    out.push('s');
    assert(out@ =~= duration_text(total_seconds as nat));
    string_of(out.as_slice())
}

/// The multiple of 1024 that unit `k` stands for.
pub open spec fn unit_divisor(k: nat) -> nat {
    if k == 0 {
        1
    } else if k == 1 {
        1024
    } else if k == 2 {
        1048576
    } else if k == 3 {
        1073741824
    } else {
        1099511627776
    }
}

/// The largest unit, up to TB, that `b` bytes fill at least once.
pub open spec fn unit_index(b: nat) -> nat {
    if b >= 1099511627776 {
        4
    } else if b >= 1073741824 {
        3
    } else if b >= 1048576 {
        2
    } else if b >= 1024 {
        1
    } else {
        0
    }
}

pub open spec fn unit_name(k: nat) -> Seq<char> {
    if k == 0 {
        seq!['B']
    } else if k == 1 {
        seq!['K', 'B']
    } else if k == 2 {
        seq!['M', 'B']
    } else if k == 3 {
        seq!['G', 'B']
    } else {
        seq!['T', 'B']
    }
}

/// `b` in hundredths of unit `k`, rounded to nearest, ties to even.
pub open spec fn hundredths(b: nat, k: nat) -> nat {
    let d = unit_divisor(k);
    let q = (b * 100) / d;
    let rem = (b * 100) % d;
    if 2 * rem > d || (2 * rem == d && q % 2 == 1) {
        q + 1
    } else {
        q
    }
}

/// Two decimal digits, with a leading zero.
pub open spec fn two_digits(n: nat) -> Seq<char> {
    seq![digit(n / 10), digit(n % 10)]
}

/// `512 B`, or the size in the largest unit it fills with two decimals
/// (`1.50 KB`).
pub open spec fn bytes_text(b: nat) -> Seq<char> {
    let k = unit_index(b);
    if k == 0 {
        decimal(b) + seq![' '] + unit_name(0)
    } else {
        let h = hundredths(b, k);
        decimal(h / 100) + seq!['.'] + two_digits(h % 100) + seq![' '] + unit_name(k)
    }
}

/// Byte counts.
pub struct MemoryUtils;

impl MemoryUtils {
    /// A byte count in human-readable form.
    pub fn format_bytes(bytes: u64) -> (r: String)
        ensures
            r@ == bytes_text(bytes as nat),
    {
        let mut out: Vec<char> = Vec::new();
        let k: u64 = if bytes >= 1099511627776 {
            4
        } else if bytes >= 1073741824 {
            3
        } else if bytes >= 1048576 {
            2
        } else if bytes >= 1024 {
            1
        } else {
            0
        };
        if k == 0 {
            push_decimal(&mut out, bytes);
            out.push(' ');
            out.push('B');
            assert(out@ =~= bytes_text(bytes as nat));
            return string_of(out.as_slice());
        }
        let d: u128 = if k == 1 {
            1024
        } else if k == 2 {
            1048576
        } else if k == 3 {
            1073741824
        } else {
            1099511627776
        };
        assert(d as nat == unit_divisor(k as nat));
        let scaled: u128 = (bytes as u128) * 100;
        let q: u128 = scaled / d;
        let rem: u128 = scaled % d;
        assert(q <= scaled) by (nonlinear_arith)
            requires
                d >= 1,
                q == scaled / d,
        ;
        let h: u128 = if 2 * rem > d || (2 * rem == d && q % 2 == 1) {
            q + 1
        } else {
            q
        };
        assert(h as nat == hundredths(bytes as nat, k as nat));
        assert(h / 100 <= u64::MAX) by (nonlinear_arith)
            requires
                h <= scaled + 1,
                scaled == (bytes as u128) * 100,
                bytes <= u64::MAX,
        ;
        push_decimal(&mut out, (h / 100) as u64);
        out.push('.');
        let frac = (h % 100) as u8;
        out.push((frac / 10 + 48) as char);
        out.push((frac % 10 + 48) as char);
        out.push(' ');
        if k == 1 {
            out.push('K');
        } else if k == 2 {
            out.push('M');
        } else if k == 3 {
            out.push('G');
        } else {
            out.push('T');
        }
        out.push('B');
        assert(digit((h % 100) as nat / 10) == ((frac / 10 + 48) as u8) as char);
        assert(digit((h % 100) as nat % 10) == ((frac % 10 + 48) as u8) as char);
        assert(out@ =~= bytes_text(bytes as nat));
        string_of(out.as_slice())
    }
}

/// Relies on `str::to_lowercase`: the result depends on the characters
/// alone.
pub uninterp spec fn lower_of(s: Seq<char>) -> Seq<char>;

/// Relies on `str::to_lowercase`.
#[verifier::external_body]
fn lowercase(s: &str) -> (r: String)
    ensures
        r@ == lower_of(s@),
{
    s.to_lowercase()
}

/// Whether `pattern`, lower-cased, occurs in `text`, lower-cased.
pub open spec fn contains_folded(text: Seq<char>, pattern: Seq<char>) -> bool {
    contains(lower_of(text), lower_of(pattern))
}

/// Text helpers.
pub struct StringUtils;

impl StringUtils {
    /// Whether any of the patterns occurs in the text, ignoring case.
    pub fn contains_any(text: &str, patterns: &[&str]) -> (r: bool)
        ensures
            r == exists|i: int| 0 <= i < patterns@.len() && contains_folded(text@, #[trigger] patterns@[i]@),
    {
        let t = chars_of(lowercase(text).as_str());
        let mut i: usize = 0;
        while i < patterns.len()
            invariant
                i <= patterns@.len(),
                t@ == lower_of(text@),
                forall|k: int| 0 <= k < i ==> !contains_folded(text@, #[trigger] patterns@[k]@),
            decreases patterns@.len() - i,
        {
            let p = chars_of(lowercase(patterns[i]).as_str());
            if contains_chars(&t, &p) {
                assert(contains_folded(text@, patterns@[i as int]@));
                return true;
            }
            i = i + 1;
        }
        false
    }

    /// The URL without its tracking query parameters (`utm_*`, `gclid`,
    /// `fbclid`, ...), a query left empty being removed; a text that does
    /// not parse is `AuboError::Url`.
    pub fn clean_tracking_params(url: &str) -> (r: Result<String, AuboError>)
        ensures
            match cleaned_url(url@) {
                Some(c) => r matches Ok(s) && s@ == c,
                None => r matches Err(AuboError::Url { input }) && input@ == url@,
            },
    {
        let new_query: Option<String> = match parse_url_query(url) {
            None => {
                return Err(AuboError::Url { input: url.to_string() });
            },
            Some(None) => None,
            Some(Some(q)) => {
                let (joined, count) = kept_query_params(&chars_of(q.as_str()));
                if count == 0 {
                    None
                } else {
                    Some(string_of(joined.as_slice()))
                }
            },
        };
        let set = match &new_query {
            Some(q) => set_url_query(url, Some(q.as_str())),
            None => set_url_query(url, None),
        };
        match set {
            Some(s) => Ok(s),
            None => Err(AuboError::Url { input: url.to_string() }),
        }
    }

    /// The text itself when it fits in `max_len` bytes; else its first
    /// `max_len - 3` bytes (none below three) followed by `...`.
    pub fn truncate(text: &str, max_len: usize) -> (r: String)
        requires
            text.spec_bytes().len() <= max_len || vstd::utf8::is_char_boundary(
                text.spec_bytes(),
                (if max_len >= 3 { max_len - 3 } else { 0 }) as int,
            ),
        ensures
            text.spec_bytes().len() <= max_len ==> r@ == text@,
            text.spec_bytes().len() > max_len ==> exists|head: &str|
                head.spec_bytes() == text.spec_bytes().subrange(
                    0,
                    (if max_len >= 3 { max_len - 3 } else { 0 }) as int,
                ) && r@ == head@ + seq!['.', '.', '.'],
    {
        if text.as_bytes().len() <= max_len {
            return String::from_str(text);
        }
        let cut: usize = if max_len >= 3 { max_len - 3 } else { 0 };
        let (head, _) = text.split_at(cut);
        let mut v: Vec<char> = chars_of(head);
        v.push('.');
        v.push('.');
        v.push('.');
        let r = string_of(v.as_slice());
        assert(r@ =~= head@ + seq!['.', '.', '.']);
        assert(head.spec_bytes() == text.spec_bytes().subrange(0, cut as int));
        assert(text.spec_bytes().len() > max_len);
        r
    }
}

/// Address helpers.
pub struct NetworkUtils;

impl NetworkUtils {
    /// The explicit port of a URL, if it parses and names one.
    pub fn extract_port(url: &str) -> (r: Option<u16>)
        ensures
            r == url_port(url@),
    {
        parse_url_port(url)
    }

    /// Whether the URL text starts with `https://`.
    pub fn is_https(url: &str) -> (r: bool)
        ensures
            r == starts_with(url@, "https://"@),
    {
        starts_with_chars(&chars_of(url), &chars_of("https://"))
    }

    /// Whether the address text is in a common private or loopback range,
    /// by prefix, or is `localhost`.
    pub fn is_private_ip(ip: &str) -> (r: bool)
        ensures
            r == (starts_with(ip@, seq!['1', '9', '2', '.', '1', '6', '8', '.']) || starts_with(
                ip@,
                seq!['1', '0', '.'],
            ) || starts_with(ip@, seq!['1', '7', '2', '.']) || starts_with(
                ip@,
                seq!['1', '2', '7', '.'],
            ) || ip@ == seq!['l', 'o', 'c', 'a', 'l', 'h', 'o', 's', 't']),
    {
        let s = chars_of(ip);
        let net192: Vec<char> = vec!['1', '9', '2', '.', '1', '6', '8', '.'];
        let net10: Vec<char> = vec!['1', '0', '.'];
        let net172: Vec<char> = vec!['1', '7', '2', '.'];
        let net127: Vec<char> = vec!['1', '2', '7', '.'];
        let l: Vec<char> = vec!['l', 'o', 'c', 'a', 'l', 'h', 'o', 's', 't'];
        assert(net192@ =~= seq!['1', '9', '2', '.', '1', '6', '8', '.']);
        assert(net10@ =~= seq!['1', '0', '.']);
        assert(net172@ =~= seq!['1', '7', '2', '.']);
        assert(net127@ =~= seq!['1', '2', '7', '.']);
        assert(l@ =~= seq!['l', 'o', 'c', 'a', 'l', 'h', 'o', 's', 't']);
        starts_with_chars(&s, &net192) || starts_with_chars(&s, &net10) || starts_with_chars(&s, &net172)
            || starts_with_chars(&s, &net127) || crate::text::chars_eq(&s, &l)
    }
}

/// The shape of a domain name: dot-separated labels of letters, digits
/// and inner hyphens, each at most 63 long.
pub open spec fn domain_expression() -> Seq<char> {
    r"^[a-zA-Z0-9]([a-zA-Z0-9\-]{0,61}[a-zA-Z0-9])?(\.[a-zA-Z0-9]([a-zA-Z0-9\-]{0,61}[a-zA-Z0-9])?)*$"@
}

/// Input checks.
pub struct ValidationUtils;

impl ValidationUtils {
    /// Whether the text parses as an absolute URL.
    pub fn is_valid_url(url: &str) -> (r: bool)
        ensures
            r == url_host(url@) is Some,
    {
        parse_url_host(url).is_some()
    }

    /// Whether the text is a domain name of at most 253 bytes.
    pub fn is_valid_domain(domain: &str) -> (r: bool)
        ensures
            r == (domain@.len() > 0 && domain.spec_bytes().len() <= 253 && regex_match(
                domain_expression(),
                domain@,
            ) == Some(true)),
    {
        if domain.is_empty() || domain.as_bytes().len() > 253 {
            return false;
        }
        match regex_is_match(
            r"^[a-zA-Z0-9]([a-zA-Z0-9\-]{0,61}[a-zA-Z0-9])?(\.[a-zA-Z0-9]([a-zA-Z0-9\-]{0,61}[a-zA-Z0-9])?)*$",
            domain,
        ) {
            Some(m) => m,
            None => false,
        }
    }

    /// A filter rule is something other than blanks, not a `#` comment, and
    /// at most 1000 bytes long.
    pub fn is_valid_filter_rule(rule: &str) -> (r: bool)
        ensures
            r == (trim(rule@).len() > 0 && !(rule@.len() > 0 && rule@[0] == '#')
                && rule.spec_bytes().len() <= 1000),
    {
        let c = chars_of(rule);
        let t = trim_chars(&c);
        let blank = t.len() == 0;
        let comment = c.len() > 0 && c[0] == '#';
        let n = rule.as_bytes().len();
        !blank && !comment && n <= 1000
    }
}

/// Relies on `url::Url::parse` and `url::Url::path_segments`: `None` where
/// the text does not parse, `Some(None)` for a URL that cannot be a base,
/// else `Some(Some(s))` with `s` the last segment of its path.
pub uninterp spec fn url_last_segment(s: Seq<char>) -> Option<Option<Seq<char>>>;

/// Relies on `url::Url::parse` and `url::Url::path_segments`.
#[verifier::external_body]
fn parse_url_last_segment(s: &str) -> (r: Option<Option<String>>)
    ensures
        match r {
            None => url_last_segment(s@) is None,
            Some(None) => url_last_segment(s@) == Some(None::<Seq<char>>),
            Some(Some(x)) => url_last_segment(s@) == Some(Some(x@)),
        },
{
    match url::Url::parse(s) {
        Ok(u) => Some(u.path_segments().and_then(|mut p| p.next_back()).map(|x| x.to_string())),
        Err(_) => None,
    }
}

/// Relies on `url::Url::parse` and `url::Url::port`: the explicit port of
/// the URL, none where the text does not parse or names no port (or the
/// scheme's default one).
pub uninterp spec fn url_port(s: Seq<char>) -> Option<u16>;

/// Relies on `url::Url::parse` and `url::Url::port`.
#[verifier::external_body]
fn parse_url_port(s: &str) -> (r: Option<u16>)
    ensures
        r == url_port(s@),
{
    match url::Url::parse(s) {
        Ok(u) => u.port(),
        Err(_) => None,
    }
}

/// Relies on `url::Url::parse` and `url::Url::query`: `None` where the
/// text does not parse, else the URL's query, if it has one.
pub uninterp spec fn url_query(s: Seq<char>) -> Option<Option<Seq<char>>>;

/// Relies on `url::Url::parse` and `url::Url::query`.
#[verifier::external_body]
fn parse_url_query(s: &str) -> (r: Option<Option<String>>)
    ensures
        match r {
            None => url_query(s@) is None,
            Some(None) => url_query(s@) == Some(None::<Seq<char>>),
            Some(Some(q)) => url_query(s@) == Some(Some(q@)),
        },
{
    match url::Url::parse(s) {
        Ok(u) => Some(u.query().map(|q| q.to_string())),
        Err(_) => None,
    }
}

/// Relies on `url::Url::parse`, `url::Url::set_query` and the URL's
/// serialization: the URL with its query replaced, `None` where the text
/// does not parse.
pub uninterp spec fn url_with_query(s: Seq<char>, q: Option<Seq<char>>) -> Option<Seq<char>>;

/// Relies on `url::Url::parse`, `url::Url::set_query` and `url::Url::as_str`.
#[verifier::external_body]
fn set_url_query(s: &str, q: Option<&str>) -> (r: Option<String>)
    ensures
        r matches Some(x) ==> url_with_query(
            s@,
            match q {
                Some(v) => Some(v@),
                None => None,
            },
        ) == Some(x@),
        r is None ==> url_with_query(
            s@,
            match q {
                Some(v) => Some(v@),
                None => None,
            },
        ) is None,
{
    match url::Url::parse(s) {
        Ok(mut u) => {
            u.set_query(q);
            Some(u.as_str().to_string())
        },
        Err(_) => None,
    }
}

/// The host of a URL, lower-cased; a text that does not parse is
/// `AuboError::Url`, a URL without a host `AuboError::Generic`.
pub fn extract_domain(url: &str) -> (r: Result<String, AuboError>)
    ensures
        match url_host(url@) {
            None => r matches Err(AuboError::Url { input }) && input@ == url@,
            Some(None) => r matches Err(AuboError::Generic { .. }),
            Some(Some(h)) => r matches Ok(d) && d@ == lower_of(h),
        },
{
    match parse_url_host(url) {
        None => Err(AuboError::Url { input: url.to_string() }),
        Some(None) => {
            let mut message = String::from_str("No host found in URL: ");
            message.append(url);
            Err(AuboError::Generic { message })
        },
        Some(Some(h)) => Ok(lowercase(h.as_str())),
    }
}

/// The request kind a content type names, if any.
pub open spec fn type_from_content(l: Seq<char>) -> Option<Seq<char>> {
    if contains(l, "image/"@) {
        Some("image"@)
    } else if contains(l, "video/"@) || contains(l, "audio/"@) {
        Some("media"@)
    } else if contains(l, "text/css"@) {
        Some("stylesheet"@)
    } else if contains(l, "javascript"@) || contains(l, "application/js"@) {
        Some("script"@)
    } else if contains(l, "font/"@) || contains(l, "application/font"@) {
        Some("font"@)
    } else {
        None
    }
}

/// The request kind a file extension names, if any.
pub open spec fn type_from_extension(e: Seq<char>) -> Option<Seq<char>> {
    if e == "css"@ {
        Some("stylesheet"@)
    } else if e == "js"@ || e == "mjs"@ {
        Some("script"@)
    } else if e == "jpg"@ || e == "jpeg"@ || e == "png"@ || e == "gif"@ || e == "webp"@ || e
        == "svg"@ || e == "ico"@ {
        Some("image"@)
    } else if e == "mp4"@ || e == "webm"@ || e == "avi"@ || e == "mov"@ || e == "mp3"@ || e
        == "wav"@ || e == "ogg"@ {
        Some("media"@)
    } else if e == "woff"@ || e == "woff2"@ || e == "ttf"@ || e == "otf"@ || e == "eot"@ {
        Some("font"@)
    } else if e == "xml"@ {
        Some("xmlhttprequest"@)
    } else {
        None
    }
}

/// The request kind: from the content type where it names one, else from
/// the extension of the URL path's last segment, else `other`.
pub open spec fn request_type_of(url: Seq<char>, content_type: Option<Seq<char>>) -> Seq<char> {
    let from_ct = match content_type {
        Some(c) => type_from_content(lower_of(c)),
        None => None,
    };
    if from_ct is Some {
        from_ct->0
    } else {
        match url_last_segment(url) {
            Some(Some(seg)) => match type_from_extension(
                lower_of(split(seg, Separator::Dot).last()),
            ) {
                Some(t) => t,
                None => "other"@,
            },
            _ => "other"@,
        }
    }
}

fn has(l: &Vec<char>, lit: &str) -> (r: bool)
    ensures
        r == contains(l@, lit@),
{
    contains_chars(l, &chars_of(lit))
}

fn is(e: &Vec<char>, lit: &str) -> (r: bool)
    ensures
        r == (e@ == lit@),
{
    crate::text::chars_eq(e, &chars_of(lit))
}

fn kind_from_content(ct: &str) -> (r: Option<&'static str>)
    ensures
        match r {
            Some(t) => type_from_content(lower_of(ct@)) == Some(t@),
            None => type_from_content(lower_of(ct@)) is None,
        },
{
    let l = chars_of(lowercase(ct).as_str());
    if has(&l, "image/") {
        Some("image")
    } else if has(&l, "video/") || has(&l, "audio/") {
        Some("media")
    } else if has(&l, "text/css") {
        Some("stylesheet")
    } else if has(&l, "javascript") || has(&l, "application/js") {
        Some("script")
    } else if has(&l, "font/") || has(&l, "application/font") {
        Some("font")
    } else {
        None
    }
}

fn kind_from_extension(e: &Vec<char>) -> (r: Option<&'static str>)
    ensures
        match r {
            Some(t) => type_from_extension(e@) == Some(t@),
            None => type_from_extension(e@) is None,
        },
{
    if is(e, "css") {
        Some("stylesheet")
    } else if is(e, "js") || is(e, "mjs") {
        Some("script")
    } else if is(e, "jpg") || is(e, "jpeg") || is(e, "png") || is(e, "gif") || is(e, "webp") || is(
        e,
        "svg",
    ) || is(e, "ico") {
        Some("image")
    } else if is(e, "mp4") || is(e, "webm") || is(e, "avi") || is(e, "mov") || is(e, "mp3") || is(
        e,
        "wav",
    ) || is(e, "ogg") {
        Some("media")
    } else if is(e, "woff") || is(e, "woff2") || is(e, "ttf") || is(e, "otf") || is(e, "eot") {
        Some("font")
    } else if is(e, "xml") {
        Some("xmlhttprequest")
    } else {
        None
    }
}

/// Classifies a request by its content type, then by its URL's extension.
pub fn determine_request_type(url: &str, content_type: Option<&str>) -> (r: &'static str)
    ensures
        r@ == request_type_of(
            url@,
            match content_type {
                Some(c) => Some(c@),
                None => None,
            },
        ),
{
    match content_type {
        Some(ct) => match kind_from_content(ct) {
            Some(t) => {
                return t;
            },
            None => {},
        },
        None => {},
    }
    match parse_url_last_segment(url) {
        Some(Some(seg)) => {
            let pieces = split_chars(&chars_of(seg.as_str()), Separator::Dot);
            proof {
                crate::text::lemma_split_nonempty(seg@, Separator::Dot);
            }
            let ext = string_of(pieces[pieces.len() - 1].as_slice());
            let lower = chars_of(lowercase(ext.as_str()).as_str());
            match kind_from_extension(&lower) {
                Some(t) => t,
                None => "other",
            }
        },
        _ => "other",
    }
}

/// The query parameters that only track the visitor.
pub open spec fn is_tracking_key(k: Seq<char>) -> bool {
    k == "utm_source"@ || k == "utm_medium"@ || k == "utm_campaign"@ || k == "utm_term"@ || k
        == "utm_content"@ || k == "gclid"@ || k == "fbclid"@ || k == "msclkid"@ || k == "_ga"@ || k
        == "mc_eid"@ || k == "mc_cid"@ || k == "ref"@ || k == "referrer"@ || k == "source"@ || k
        == "campaign"@ || k == "medium"@ || k == "igshid"@ || k == "feature"@ || k == "gws_rd"@
}

fn tracking_key(k: &Vec<char>) -> (r: bool)
    ensures
        r == is_tracking_key(k@),
{
    is(k, "utm_source") || is(k, "utm_medium") || is(k, "utm_campaign") || is(k, "utm_term") || is(
        k,
        "utm_content",
    ) || is(k, "gclid") || is(k, "fbclid") || is(k, "msclkid") || is(k, "_ga") || is(k, "mc_eid")
        || is(k, "mc_cid") || is(k, "ref") || is(k, "referrer") || is(k, "source") || is(
        k,
        "campaign",
    ) || is(k, "medium") || is(k, "igshid") || is(k, "feature") || is(k, "gws_rd")
}

pub open spec fn param_key(p: Seq<char>) -> Seq<char> {
    split(p, Separator::Equals)[0]
}

/// The parameters kept, in order.
pub open spec fn kept_params(ps: Seq<Seq<char>>) -> Seq<Seq<char>>
    decreases ps.len(),
{
    if ps.len() == 0 {
        Seq::empty()
    } else if is_tracking_key(param_key(ps.last())) {
        kept_params(ps.drop_last())
    } else {
        kept_params(ps.drop_last()).push(ps.last())
    }
}

/// The pieces joined with `&` between them.
pub open spec fn join_amp(ps: Seq<Seq<char>>) -> Seq<char>
    decreases ps.len(),
{
    if ps.len() == 0 {
        Seq::empty()
    } else if ps.len() == 1 {
        ps[0]
    } else {
        join_amp(ps.drop_last()) + seq!['&'] + ps.last()
    }
}

/// The query left once tracking parameters are gone; none where none is left.
pub open spec fn cleaned_query(q: Seq<char>) -> Option<Seq<char>> {
    let kept = kept_params(split(q, Separator::Ampersand));
    if kept.len() == 0 {
        None
    } else {
        Some(join_amp(kept))
    }
}

/// The URL with its tracking parameters removed, as the URL parser writes
/// it: `None` where it does not parse.
pub open spec fn cleaned_url(url: Seq<char>) -> Option<Seq<char>> {
    match url_query(url) {
        None => None,
        Some(q) => url_with_query(
            url,
            match q {
                Some(v) => cleaned_query(v),
                None => None,
            },
        ),
    }
}

fn kept_query_params(q: &Vec<char>) -> (r: (Vec<char>, usize))
    ensures
        r.0@ == join_amp(kept_params(split(q@, Separator::Ampersand))),
        r.1 == kept_params(split(q@, Separator::Ampersand)).len(),
{
    let pieces = split_chars(q, Separator::Ampersand);
    let ghost ps = split(q@, Separator::Ampersand);
    let mut kept: Vec<Vec<char>> = Vec::new();
    let mut i: usize = 0;
    assert(ps.take(0) =~= Seq::<Seq<char>>::empty());
    while i < pieces.len()
        invariant
            i <= pieces@.len(),
            pieces@.len() == ps.len(),
            ps == split(q@, Separator::Ampersand),
            forall|k: int| 0 <= k < pieces@.len() ==> #[trigger] pieces@[k]@ == ps[k],
            kept@.len() == kept_params(ps.take(i as int)).len(),
            forall|k: int|
                0 <= k < kept@.len() ==> #[trigger] kept@[k]@ == kept_params(ps.take(i as int))[k],
        decreases pieces@.len() - i,
    {
        assert(ps.take(i + 1).drop_last() =~= ps.take(i as int));
        assert(ps.take(i + 1).last() == pieces@[i as int]@);
        let kv = split_chars(&pieces[i], Separator::Equals);
        proof {
            crate::text::lemma_split_nonempty(pieces@[i as int]@, Separator::Equals);
        }
        if !tracking_key(&kv[0]) {
            let piece = crate::text::slice_chars(&pieces[i], 0, pieces[i].len());
            assert(pieces@[i as int]@.subrange(0, pieces@[i as int]@.len() as int) =~= pieces@[i as int]@);
            kept.push(piece);
        }
        i = i + 1;
    }
    assert(ps.take(pieces@.len() as int) =~= ps);
    let ghost ks = kept_params(ps);
    let mut out: Vec<char> = Vec::new();
    let mut j: usize = 0;
    assert(ks.take(0) =~= Seq::<Seq<char>>::empty());
    while j < kept.len()
        invariant
            j <= kept@.len(),
            ks == kept_params(ps),
            kept@.len() == ks.len(),
            forall|k: int| 0 <= k < kept@.len() ==> #[trigger] kept@[k]@ == ks[k],
            out@ == join_amp(ks.take(j as int)),
        decreases kept@.len() - j,
    {
        assert(ks.take(j + 1).drop_last() =~= ks.take(j as int));
        let ghost before = out@;
        if j > 0 {
            out.push('&');
        }
        let mut t: usize = 0;
        while t < kept[j].len()
            invariant
                j < kept@.len(),
                t <= kept@[j as int]@.len(),
                out@ == before + (if j > 0 {
                    seq!['&']
                } else {
                    Seq::<char>::empty()
                }) + kept@[j as int]@.take(t as int),
            decreases kept@[j as int]@.len() - t,
        {
            out.push(kept[j][t]);
            assert(out@ =~= before + (if j > 0 {
                seq!['&']
            } else {
                Seq::<char>::empty()
            }) + kept@[j as int]@.take(t + 1));
            t = t + 1;
        }
        assert(kept@[j as int]@.take(kept@[j as int]@.len() as int) =~= kept@[j as int]@);
        if j == 0 {
            assert(ks.take(1) =~= seq![ks[0]]);
            assert(out@ =~= join_amp(ks.take(1)));
        } else {
            assert(ks.take(j + 1).last() == ks[j as int]);
            assert(out@ =~= join_amp(ks.take(j + 1)));
        }
        j = j + 1;
    }
    assert(ks.take(kept@.len() as int) =~= ks);
    (out, kept.len())
}

/// Lexicographic order on character sequences, by code point.
pub open spec fn lex_le(a: Seq<char>, b: Seq<char>) -> bool
    decreases a.len(),
{
    if a.len() == 0 {
        true
    } else if b.len() == 0 {
        false
    } else if a[0] != b[0] {
        (a[0] as u32) < (b[0] as u32)
    } else {
        lex_le(a.drop_first(), b.drop_first())
    }
}

pub open spec fn sorted_lex(s: Seq<Seq<char>>) -> bool {
    forall|i: int, j: int| 0 <= i < j < s.len() ==> lex_le(#[trigger] s[i], #[trigger] s[j])
}

pub open spec fn string_views(v: Seq<String>) -> Seq<Seq<char>> {
    v.map_values(|s: String| s@)
}

/// Relies on `slice::sort_unstable` and `Ord` for `String`, which orders
/// strings by their bytes, that is by code point: the same strings, in
/// ascending order.
#[verifier::external_body]
fn sort_strings(v: &mut Vec<String>)
    ensures
        string_views(final(v)@).to_multiset() == string_views(old(v)@).to_multiset(),
        sorted_lex(string_views(final(v)@)),
{
    v.sort_unstable()
}

/// Relies on `url::Url::parse`, `url::Url::set_fragment`,
/// `url::Url::set_query` and `url::Url::as_str`: the URL without its
/// fragment and with the given query, `None` where the text does not parse.
pub uninterp spec fn url_without_fragment(s: Seq<char>, q: Option<Seq<char>>) -> Option<Seq<char>>;

/// Relies on `url::Url::parse`, `url::Url::set_fragment`,
/// `url::Url::set_query` and `url::Url::as_str`.
#[verifier::external_body]
fn drop_url_fragment(s: &str, q: Option<&str>) -> (r: Option<String>)
    ensures
        r matches Some(x) ==> url_without_fragment(
            s@,
            match q {
                Some(v) => Some(v@),
                None => None,
            },
        ) == Some(x@),
        r is None ==> url_without_fragment(
            s@,
            match q {
                Some(v) => Some(v@),
                None => None,
            },
        ) is None,
{
    match url::Url::parse(s) {
        Ok(mut u) => {
            u.set_fragment(None);
            u.set_query(q);
            Some(u.as_str().to_string())
        },
        Err(_) => None,
    }
}

/// The normal form of a URL: fragment removed, query parameters sorted,
/// lower-cased.
pub open spec fn is_normal_form(url: Seq<char>, r: Seq<char>) -> bool {
    match url_query(url) {
        None => false,
        Some(None) => url_without_fragment(url, None) matches Some(x) && r == lower_of(x),
        Some(Some(q)) => exists|t: Seq<Seq<char>>|
            t.to_multiset() == split(q, Separator::Ampersand).to_multiset() && sorted_lex(t) && (
            url_without_fragment(url, Some(join_amp(t))) matches Some(x) && r == lower_of(x)),
    }
}

fn join_strings(v: &Vec<String>) -> (r: Vec<char>)
    ensures
        r@ == join_amp(string_views(v@)),
{
    let ghost ks = string_views(v@);
    let mut out: Vec<char> = Vec::new();
    let mut j: usize = 0;
    assert(ks.take(0) =~= Seq::<Seq<char>>::empty());
    while j < v.len()
        invariant
            j <= v@.len(),
            ks == string_views(v@),
            out@ == join_amp(ks.take(j as int)),
        decreases v@.len() - j,
    {
        assert(ks.take(j + 1).drop_last() =~= ks.take(j as int));
        let ghost before = out@;
        if j > 0 {
            out.push('&');
        }
        let piece = chars_of(v[j].as_str());
        let mut t: usize = 0;
        while t < piece.len()
            invariant
                t <= piece@.len(),
                out@ == before + (if j > 0 {
                    seq!['&']
                } else {
                    Seq::<char>::empty()
                }) + piece@.take(t as int),
            decreases piece@.len() - t,
        {
            out.push(piece[t]);
            assert(out@ =~= before + (if j > 0 {
                seq!['&']
            } else {
                Seq::<char>::empty()
            }) + piece@.take(t + 1));
            t = t + 1;
        }
        assert(piece@.take(piece@.len() as int) =~= piece@);
        assert(ks[j as int] == piece@);
        if j == 0 {
            assert(ks.take(1) =~= seq![ks[0]]);
            assert(out@ =~= join_amp(ks.take(1)));
        } else {
            assert(ks.take(j + 1).last() == ks[j as int]);
            assert(out@ =~= join_amp(ks.take(j + 1)));
        }
        j = j + 1;
    }
    assert(ks.take(v@.len() as int) =~= ks);
    out
}

/// A URL in normal form; a text that does not parse is `AuboError::Url`.
pub fn normalize_url(url: &str) -> (r: Result<String, AuboError>)
    ensures
        match r {
            Ok(s) => is_normal_form(url@, s@),
            Err(e) => e matches AuboError::Url { input } && input@ == url@,
        },
        url_query(url@) is None ==> r is Err,
{
    let set = match parse_url_query(url) {
        None => {
            return Err(AuboError::Url { input: url.to_string() });
        },
        Some(None) => drop_url_fragment(url, None),
        Some(Some(q)) => {
            let pieces = split_chars(&chars_of(q.as_str()), Separator::Ampersand);
            let mut params: Vec<String> = Vec::new();
            let mut i: usize = 0;
            while i < pieces.len()
                invariant
                    i <= pieces@.len(),
                    pieces@.len() == split(q@, Separator::Ampersand).len(),
                    forall|k: int|
                        0 <= k < pieces@.len() ==> #[trigger] pieces@[k]@ == split(
                            q@,
                            Separator::Ampersand,
                        )[k],
                    string_views(params@) == split(q@, Separator::Ampersand).take(i as int),
                decreases pieces@.len() - i,
            {
                let ghost prev = params@;
                params.push(string_of(pieces[i].as_slice()));
                assert(string_views(params@) =~= string_views(prev).push(pieces@[i as int]@));
                assert(split(q@, Separator::Ampersand).take(i + 1) =~= split(
                    q@,
                    Separator::Ampersand,
                ).take(i as int).push(pieces@[i as int]@));
                i = i + 1;
            }
            assert(split(q@, Separator::Ampersand).take(pieces@.len() as int) =~= split(
                q@,
                Separator::Ampersand,
            ));
            sort_strings(&mut params);
            let joined = string_of(join_strings(&params).as_slice());
            drop_url_fragment(url, Some(joined.as_str()))
        },
    };
    match set {
        Some(s) => Ok(lowercase(s.as_str())),
        None => Err(AuboError::Url { input: url.to_string() }),
    }
}

/// Clock readings.
pub struct TimeUtils;

impl TimeUtils {
    /// Relies on `SystemTime::now` and `SystemTime::duration_since`: the
    /// whole milliseconds since the Unix epoch, 0 for a clock set before it.
    #[verifier::external_body]
    pub fn now_millis() -> u64 {
        std::time::SystemTime::now()
            .duration_since(std::time::UNIX_EPOCH)
            .unwrap_or_default()
            .as_millis() as u64
    }

    /// Relies on `SystemTime::now` and `SystemTime::duration_since`: the
    /// whole seconds since the Unix epoch, 0 for a clock set before it.
    #[verifier::external_body]
    pub fn now_seconds() -> u64 {
        std::time::SystemTime::now()
            .duration_since(std::time::UNIX_EPOCH)
            .unwrap_or_default()
            .as_secs()
    }

    /// A span as text, `3d 4h 5m 6s` with leading zero units left out.
    pub fn duration_to_string(duration: core::time::Duration) -> (r: String)
        ensures
            exists|secs: u64| r@ == duration_text(secs as nat),
    {
        format_duration_seconds(duration.as_secs())
    }
}

} // verus!

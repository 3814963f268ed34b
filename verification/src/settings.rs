//! Server settings values: log levels, redirect kinds, virtual hosts and
//! the parsers of command-line values (status codes, Unix socket modes).
use vstd::prelude::*;

use crate::text::{
    chars_of, digit_of, digit_value, is_digit, is_ws, split, split_bounds, str_eq, string_of, trim,
    trim_bounds, trim_end, trim_start,
};

verus! {

/// Log level variants.
#[derive(Debug, Clone, Copy, PartialEq, Eq, Structural)]
pub enum LogLevel {
    /// Error log level.
    Error,
    /// Warn log level.
    Warn,
    /// Info log level.
    Info,
    /// Debug log level.
    Debug,
    /// Trace log level.
    Trace,
}

/// The name of a log level.
pub open spec fn log_level_name(l: LogLevel) -> Seq<char> {
    match l {
        LogLevel::Error => "error"@,
        LogLevel::Warn => "warn"@,
        LogLevel::Info => "info"@,
        LogLevel::Debug => "debug"@,
        LogLevel::Trace => "trace"@,
    }
}

impl LogLevel {
    /// Get log level name.
    pub fn name(&self) -> (r: &'static str)
        ensures
            r@ == log_level_name(*self),
    {
        match self {
            LogLevel::Error => "error",
            LogLevel::Warn => "warn",
            LogLevel::Info => "info",
            LogLevel::Debug => "debug",
            LogLevel::Trace => "trace",
        }
    }
}

/// Redirect types.
#[derive(Debug, Clone, Copy, PartialEq, Eq, Structural)]
pub enum RedirectsKind {
    /// Moved Permanently
    Permanent,
    /// Found
    Temporary,
}

impl RedirectsKind {
    /// The status code of the redirect.
    pub fn status(&self) -> (r: u16)
        ensures
            r == match *self {
                RedirectsKind::Permanent => 301u16,
                RedirectsKind::Temporary => 302u16,
            },
    {
        match self {
            RedirectsKind::Permanent => 301,
            RedirectsKind::Temporary => 302,
        }
    }
}

/// A name-based virtual host.
#[derive(Debug, Clone)]
pub struct VirtualHosts {
    /// The value to check for in the "Host" header
    pub host: String,
    /// The root directory for this virtual host
    pub root: String,
}

/// Why an unsigned integer could not be parsed (as in
/// `std::num::IntErrorKind`).
#[derive(Debug, Clone, Copy, PartialEq, Eq, Structural)]
pub enum IntErrorKind {
    /// The string is empty.
    Empty,
    /// A character is not a digit of the radix.
    InvalidDigit,
    /// The value does not fit in the target type.
    PosOverflow,
}

/// The message of a parse error (the `Display` of `ParseIntError`).
pub open spec fn int_error_message(k: IntErrorKind) -> Seq<char> {
    match k {
        IntErrorKind::Empty => "cannot parse integer from empty string"@,
        IntErrorKind::InvalidDigit => "invalid digit found in string"@,
        IntErrorKind::PosOverflow => "number too large to fit in target type"@,
    }
}

/// A digit of a radix up to 10.
pub open spec fn is_radix_digit(c: char, radix: nat) -> bool {
    is_digit(c) && digit_of(c) < radix
}

/// Reading digits from position `i` with `acc` read so far: the first
/// character that is not a digit, or the first step past `max`, fails.
pub open spec fn scan_digits(d: Seq<char>, i: int, acc: nat, radix: nat, max: nat) -> Result<
    nat,
    IntErrorKind,
>
    decreases d.len() - i,
{
    if i < 0 || i >= d.len() {
        Ok(acc)
    } else if !is_radix_digit(d[i], radix) {
        Err(IntErrorKind::InvalidDigit)
    } else {
        let next = acc * radix + digit_of(d[i]);
        if next > max {
            Err(IntErrorKind::PosOverflow)
        } else {
            scan_digits(d, i + 1, next, radix, max)
        }
    }
}

/// `from_str_radix` for an unsigned type whose largest value is `max`.
pub open spec fn parse_uint(src: Seq<char>, radix: nat, max: nat) -> Result<nat, IntErrorKind> {
    if src.len() == 0 {
        Err(IntErrorKind::Empty)
    } else if src.len() == 1 && (src[0] == '+' || src[0] == '-') {
        Err(IntErrorKind::InvalidDigit)
    } else {
        let d = if src[0] == '+' {
            src.drop_first()
        } else {
            src
        };
        scan_digits(d, 0, 0, radix, max)
    }
}

/// Executable `parse_uint` on `v[lo..hi]` for a radix up to 10 and a
/// maximum that fits in 32 bits.
pub fn parse_uint_at(v: &[char], lo: usize, hi: usize, radix: u32, max: u32) -> (r: Result<
    u32,
    IntErrorKind,
>)
    requires
        lo <= hi <= v@.len(),
        2 <= radix <= 10,
    ensures
        match parse_uint(v@.subrange(lo as int, hi as int), radix as nat, max as nat) {
            Ok(n) => r == Ok::<u32, IntErrorKind>(n as u32) && n <= max,
            Err(k) => r == Err::<u32, IntErrorKind>(k),
        },
{
    let ghost src = v@.subrange(lo as int, hi as int);
    if lo == hi {
        return Err(IntErrorKind::Empty);
    }
    if hi - lo == 1 && (v[lo] == '+' || v[lo] == '-') {
        return Err(IntErrorKind::InvalidDigit);
    }
    let start = if v[lo] == '+' {
        lo + 1
    } else {
        lo
    };
    let ghost d = v@.subrange(start as int, hi as int);
    assert(d =~= (if src[0] == '+' { src.drop_first() } else { src }));
    assert(parse_uint(src, radix as nat, max as nat) == scan_digits(d, 0, 0, radix as nat, max as nat));
    let mut acc: u32 = 0;
    let mut i = start;
    while i < hi
        invariant
            lo <= start <= i <= hi <= v@.len(),
            2 <= radix <= 10,
            acc <= max,
            d == v@.subrange(start as int, hi as int),
            parse_uint(v@.subrange(lo as int, hi as int), radix as nat, max as nat) == scan_digits(
                d,
                0,
                0,
                radix as nat,
                max as nat,
            ),
            scan_digits(d, 0, 0, radix as nat, max as nat) == scan_digits(
                d,
                i - start,
                acc as nat,
                radix as nat,
                max as nat,
            ),
        decreases hi - i,
    {
        let c = v[i];
        assert(d[i - start] == c);
        if !('0' <= c && c <= '9') {
            return Err(IntErrorKind::InvalidDigit);
        }
        let x = digit_value(c) as u32;
        if x >= radix {
            return Err(IntErrorKind::InvalidDigit);
        }
        assert((acc as u64) * (radix as u64) <= 0xffff_ffffu64 * 10) by (nonlinear_arith)
            requires
                acc <= 0xffff_ffffu32,
                radix <= 10,
        ;
        let wide: u64 = (acc as u64) * (radix as u64) + (x as u64);
        if wide > max as u64 {
            return Err(IntErrorKind::PosOverflow);
        }
        acc = wide as u32;
        i = i + 1;
    }
    Ok(acc)
}

/// The part of a trimmed mode string that holds the octal digits: without
/// a `0o` or `0O` prefix when there is one.
pub open spec fn octal_digits(t: Seq<char>) -> Seq<char> {
    if t.len() >= 2 && t[0] == '0' && (t[1] == 'o' || t[1] == 'O') {
        t.skip(2)
    } else {
        t
    }
}

/// What `parse_octal_mode` returns.
pub open spec fn parse_octal_mode_spec(s: Seq<char>) -> Result<u32, Seq<char>> {
    let t = trim(s);
    if t.len() == 0 {
        Err("unix socket mode cannot be empty"@)
    } else {
        match parse_uint(octal_digits(t), 8, u32::MAX as nat) {
            Err(k) => Err("invalid octal unix socket mode '"@ + s + "': "@ + int_error_message(k)),
            Ok(mode) => if mode > 0o7777 {
                Err("unix socket mode '"@ + s + "' exceeds maximum 07777 (12-bit permission mask)"@)
            } else {
                Ok(mode as u32)
            },
        }
    }
}

/// The message of a parse error.
fn int_error_text(k: IntErrorKind) -> (r: &'static str)
    ensures
        r@ == int_error_message(k),
{
    match k {
        IntErrorKind::Empty => "cannot parse integer from empty string",
        IntErrorKind::InvalidDigit => "invalid digit found in string",
        IntErrorKind::PosOverflow => "number too large to fit in target type",
    }
}

/// Parses a Unix file mode given in octal (e.g. `660`, `0660`, `0o660`),
/// rejecting anything beyond the 12-bit permission space (`07777`).
pub fn parse_octal_mode(s: &str) -> (r: Result<u32, String>)
    ensures
        match parse_octal_mode_spec(s@) {
            Ok(m) => r == Ok::<u32, String>(m),
            Err(e) => r matches Err(x) && x@ == e,
        },
        r matches Ok(m) ==> m <= 0o7777,
{
    let v = chars_of(s);
    let (a, b) = trim_bounds(v.as_slice(), 0, v.len());
    assert(v@.subrange(0, v@.len() as int) =~= s@);
    if a == b {
        return Err(String::from_str("unix socket mode cannot be empty"));
    }
    let ghost t = v@.subrange(a as int, b as int);
    let start = if b - a >= 2 && v[a] == '0' && (v[a + 1] == 'o' || v[a + 1] == 'O') {
        a + 2
    } else {
        a
    };
    assert(b - a >= 2 ==> t[0] == v@[a as int] && t[1] == v@[a + 1]);
    assert(v@.subrange(start as int, b as int) =~= octal_digits(t));
    match parse_uint_at(v.as_slice(), start, b, 8, u32::MAX) {
        Err(k) => {
            let mut msg = String::from_str("invalid octal unix socket mode '");
            msg.append(s);
            msg.append("': ");
            let e = int_error_text(k);
            msg.append(e);
            assert(msg@ =~= "invalid octal unix socket mode '"@ + s@ + "': "@ + int_error_message(k));
            Err(msg)
        },
        Ok(mode) => {
            if mode > 0o7777 {
                let mut msg = String::from_str("unix socket mode '");
                msg.append(s);
                msg.append("' exceeds maximum 07777 (12-bit permission mask)");
                assert(msg@ =~= "unix socket mode '"@ + s@
                    + "' exceeds maximum 07777 (12-bit permission mask)"@);
                Err(msg)
            } else {
                Ok(mode)
            }
        },
    }
}

/// What `value_parser_status_code` returns: a decimal `u16` that is a
/// valid status code (100 to 999).
pub open spec fn status_code_spec(s: Seq<char>) -> Result<u16, Seq<char>> {
    match parse_uint(s, 10, u16::MAX as nat) {
        Err(k) => Err(int_error_message(k)),
        Ok(code) => if 100 <= code < 1000 {
            Ok(code as u16)
        } else {
            Err("invalid status code"@)
        },
    }
}

/// Parses an HTTP status code given in decimal.
pub fn value_parser_status_code(s: &str) -> (r: Result<u16, String>)
    ensures
        match status_code_spec(s@) {
            Ok(c) => r == Ok::<u16, String>(c),
            Err(e) => r matches Err(x) && x@ == e,
        },
{
    let v = chars_of(s);
    assert(v@.subrange(0, v@.len() as int) =~= s@);
    match parse_uint_at(v.as_slice(), 0, v.len(), 10, u16::MAX as u32) {
        Err(k) => Err(String::from_str(int_error_text(k))),
        Ok(code) => {
            if 100 <= code && code < 1000 {
                Ok(code as u16)
            } else {
                Err(String::from_str("invalid status code"))
            }
        },
    }
}

/// Subcommands for maintenance tasks.
#[derive(Debug, Clone)]
pub enum Commands {
    /// Generate man pages and shell completions.
    Generate {
        /// Generate shell completions.
        completions: bool,
        /// Generate man pages.
        man_pages: bool,
        /// Path to write generated artifacts to.
        out_dir: String,
    },
}

/// Parses a path argument: any text is a path.
pub fn value_parser_pathbuf(s: &str) -> (r: Result<String, String>)
    ensures
        r matches Ok(p) && p@ == s@,
{
    Ok(String::from_str(s))
}

/// The root directory of the first virtual host named like the request
/// host, if any.
pub open spec fn real_root_spec(vhosts: Seq<VirtualHosts>, host: Seq<char>) -> Option<int>
    decreases vhosts.len(),
{
    if vhosts.len() == 0 {
        None
    } else if vhosts[0].host@ == host {
        Some(0)
    } else {
        match real_root_spec(vhosts.drop_first(), host) {
            Some(i) => Some(i + 1),
            None => None,
        }
    }
}

/// Chooses the root directory of a request by its host among the virtual
/// hosts: the root of the first one named like it, if any.
#[verifier::loop_isolation(false)]
pub fn get_real_root<'a>(virtual_hosts: Option<&'a [VirtualHosts]>, host: Option<&str>) -> (r: Option<
    &'a String,
>)
    ensures
        match (virtual_hosts, host) {
            (Some(v), Some(h)) => match real_root_spec(v@, h@) {
                Some(i) => r == Some(&v@[i].root),
                None => r is None,
            },
            _ => r is None,
        },
{
    let (v, h) = match (virtual_hosts, host) {
        (Some(v), Some(h)) => (v, h),
        _ => {
            return None;
        },
    };
    assert(v@.skip(0) =~= v@);
    let mut i: usize = 0;
    while i < v.len()
        invariant
            i <= v@.len(),
            real_root_spec(v@, h@) == match real_root_spec(v@.skip(i as int), h@) {
                Some(j) => Some(j + i),
                None => None,
            },
        decreases v@.len() - i,
    {
        assert(v@.skip(i as int)[0] == v@[i as int]);
        assert(v@.skip(i as int).drop_first() =~= v@.skip(i + 1));
        if str_eq(v[i].host.as_str(), h) {
            return Some(&v[i].root);
        }
        i = i + 1;
    }
    assert(v@.skip(i as int) =~= Seq::<VirtualHosts>::empty());
    None
}

/// The index files of a comma-separated list, each trimmed.
pub open spec fn index_files_spec(list: Seq<char>) -> Seq<Seq<char>> {
    split(list, ',').map_values(|f: Seq<char>| trim(f))
}

/// Reads the comma-separated list of index files; it always names at
/// least one (possibly empty) file.
pub fn index_files_of(list: &str) -> (r: Vec<String>)
    ensures
        r@.map_values(|f: String| f@) == index_files_spec(list@),
        r@.len() >= 1,
{
    let v = chars_of(list);
    let n: usize = v.len();
    assert(v@.subrange(0, n as int) =~= list@);
    let parts = split_bounds(v.as_slice(), 0, n, ',');
    proof {
        crate::text::lemma_split_nonempty(list@, ',');
    }
    let ghost want = index_files_spec(list@);
    let mut r: Vec<String> = Vec::new();
    let mut k: usize = 0;
    while k < parts.len()
        invariant
            k <= parts@.len() == split(list@, ',').len(),
            n == v@.len(),
            v@.subrange(0, n as int) == list@,
            want == index_files_spec(list@),
            forall|j: int|
                0 <= j < parts@.len() ==> {
                    let (x, y) = #[trigger] parts@[j];
                    &&& 0 <= x <= y <= n
                    &&& v@.subrange(x as int, y as int) == split(v@.subrange(0, n as int), ',')[j]
                },
            r@.map_values(|f: String| f@) == want.take(k as int),
        decreases parts@.len() - k,
    {
        let (x, y) = parts[k];
        let (a, b) = trim_bounds(v.as_slice(), x, y);
        let f = string_of(v.as_slice(), a, b);
        let ghost old_r = r@;
        assert(f@ == want[k as int]);
        r.push(f);
        assert(r@.map_values(|f: String| f@) =~= old_r.map_values(|f: String| f@).push(want[k as int]));
        assert(want.take(k + 1) =~= want.take(k as int).push(want[k as int]));
        k = k + 1;
    }
    assert(want.take(k as int) =~= want);
    r
}

} // verus!

verus! {

/// `format!("{:o}", n)`: octal without leading zeros.
pub open spec fn oct(n: nat) -> Seq<char>
    decreases n,
{
    if n < 8 {
        seq![(n + '0' as nat) as char]
    } else {
        oct(n / 8).push(((n % 8) + '0' as nat) as char)
    }
}

/// Reading one more character after `s` continues from where `s` stopped.
proof fn lemma_scan_push(s: Seq<char>, c: char, i: int, acc: nat, radix: nat, max: nat)
    requires
        0 <= i <= s.len(),
    ensures
        scan_digits(s, i, acc, radix, max) matches Ok(v) ==> scan_digits(
            s.push(c),
            i,
            acc,
            radix,
            max,
        ) == (if !is_radix_digit(c, radix) {
            Err(IntErrorKind::InvalidDigit)
        } else if v * radix + digit_of(c) > max {
            Err(IntErrorKind::PosOverflow)
        } else {
            Ok(v * radix + digit_of(c))
        }),
    decreases s.len() - i,
{
    let t = s.push(c);
    if i < s.len() {
        assert(t[i] == s[i]);
        if is_radix_digit(s[i], radix) && acc * radix + digit_of(s[i]) <= max {
            lemma_scan_push(s, c, i + 1, acc * radix + digit_of(s[i]), radix, max);
        }
    } else {
        assert(t[i] == c);
        let next = acc * radix + digit_of(c);
        assert(scan_digits(t, i + 1, next, radix, max) == Ok::<nat, IntErrorKind>(next));
    }
}

/// The octal rendering of `n` is made of digits below 8, does not start
/// with a sign, and reads back to `n` under any bound that `n` meets.
proof fn lemma_oct_scan(n: nat, max: nat)
    requires
        n <= max,
    ensures
        oct(n).len() >= 1,
        is_digit(oct(n)[0]),
        oct(n).len() >= 2 ==> is_digit(oct(n)[1]),
        forall|i: int| 0 <= i < oct(n).len() ==> is_digit(#[trigger] oct(n)[i]),
        scan_digits(oct(n), 0, 0, 8, max) == Ok::<nat, IntErrorKind>(n),
    decreases n,
{
    let c = ((n % 8) + '0' as nat) as char;
    assert(c as int == (n % 8) + 48);
    assert(digit_of(c) == n % 8);
    if n < 8 {
        let s = seq![c];
        assert(oct(n) == s);
        assert(scan_digits(s, 1, n, 8, max) == Ok::<nat, IntErrorKind>(n));
    } else {
        lemma_oct_scan(n / 8, max);
        let h = oct(n / 8);
        assert(oct(n) == h.push(c));
        lemma_scan_push(h, c, 0, 0, 8, max);
        assert((n / 8) * 8 + n % 8 == n);
        assert(h.push(c)[0] == h[0]);
        assert(h.len() >= 2 ==> h.push(c)[1] == h[1]);
        assert(h.len() == 1 ==> h.push(c)[1] == c);
        assert forall|i: int| 0 <= i < h.push(c).len() implies is_digit(#[trigger] h.push(c)[i]) by {
            if i < h.len() {
                assert(h.push(c)[i] == h[i]);
            }
        }
    }
}

/// A Unix mode written in octal (as `format!("{m:o}")` writes it), bare or
/// with a `0o` prefix and surrounding white space, parses back to the same
/// mode; and no parse ever gives a mode beyond the 12-bit permission mask.
pub proof fn lemma_octal_mode_round_trip(m: u32, s: Seq<char>)
    requires
        m <= 0o7777,
    ensures
        parse_octal_mode_spec(oct(m as nat)) == Ok::<u32, Seq<char>>(m),
        parse_octal_mode_spec(" 0o"@ + oct(m as nat) + " "@) == Ok::<u32, Seq<char>>(m),
        parse_octal_mode_spec(s) matches Ok(k) ==> k <= 0o7777,
{
    reveal_strlit(" 0o");
    reveal_strlit("0o");
    reveal_strlit(" ");
    let o = oct(m as nat);
    lemma_oct_scan(m as nat, u32::MAX as nat);
    // The bare rendering has no white space to trim and no prefix to drop.
    assert(!is_ws(o[0]));
    assert(!is_ws(o.last()));
    assert(trim_start(o) == o);
    assert(trim_end(o) == o);
    assert(trim(o) == o);
    assert(octal_digits(o) == o);
    assert(o[0] != '+' && o[0] != '-');
    // The prefixed rendering trims to `0o` followed by the digits.
    let p = "0o"@ + o;
    let w = " 0o"@ + o + " "@;
    let q = p + " "@;
    assert(w =~= seq![' '] + q);
    assert(w.drop_first() =~= q);
    assert(is_ws(w[0]));
    assert(!is_ws(q[0]));
    assert(trim_start(q) == q);
    assert(trim_start(w) == q);
    assert(q.drop_last() =~= p);
    assert(is_ws(q.last()));
    assert(p.last() == o.last());
    assert(!is_ws(p.last()));
    assert(trim_end(p) == p);
    assert(trim_end(q) == p);
    assert(trim(w) == p);
    assert(p.skip(2) =~= o);
    assert(octal_digits(p) == o);
}

} // verus!

use vstd::prelude::*;
use vstd::seq_lib::*;
use vstd::string::{StrSliceExecFns, StringExecFns};

verus! {

/// Character-wise string equality.
pub fn str_eq(a: &str, b: &str) -> (r: bool)
    ensures
        r == (a@ == b@),
{
    let la = a.unicode_len();
    let lb = b.unicode_len();
    if la != lb {
        return false;
    }
    let mut i: usize = 0;
    while i < la
        invariant
            la == a@.len(),
            la == b@.len(),
            i <= la,
            forall|j: int| 0 <= j < i ==> a@[j] == b@[j],
        decreases la - i,
    {
        if a.get_char(i) != b.get_char(i) {
            return false;
        }
        i = i + 1;
    }
    proof {
        assert(a@ =~= b@);
    }
    true
}

/// Relies on String's FromIterator over chars: the string holding exactly
/// these characters, in order.
#[verifier::external_body]
pub(crate) fn chars_to_string(v: &Vec<char>) -> (r: String)
    ensures
        r@ == v@,
{
    v.iter().collect()
}

/// The character is a decimal digit.
pub open spec fn is_ascii_digit_char(c: char) -> bool {
    '0' <= c && c <= '9'
}

/// Every character is a decimal digit.
pub open spec fn all_digits(s: Seq<char>) -> bool {
    forall|i: int| 0 <= i < s.len() ==> is_ascii_digit_char(s[i])
}

/// The number a digit string denotes.
pub open spec fn dec_val(s: Seq<char>) -> int
    decreases s.len(),
{
    if s.len() == 0 {
        0
    } else {
        dec_val(s.drop_last()) * 10 + (s.last() as int - '0' as int)
    }
}

proof fn lemma_dec_val_nonneg(s: Seq<char>)
    requires
        all_digits(s),
    ensures
        dec_val(s) >= 0,
    decreases s.len(),
{
    if s.len() > 0 {
        assert(all_digits(s.drop_last())) by {
            assert(forall|i: int|
                0 <= i < s.drop_last().len() ==> s.drop_last()[i] == s[i]);
        }
        lemma_dec_val_nonneg(s.drop_last());
    }
}

proof fn lemma_dec_val_prefix(s: Seq<char>, i: int)
    requires
        0 <= i <= s.len(),
        all_digits(s),
    ensures
        dec_val(s.take(i)) <= dec_val(s),
    decreases s.len() - i,
{
    if i == s.len() {
        assert(s.take(i) =~= s);
    } else {
        lemma_dec_val_prefix(s, i + 1);
        assert(s.take(i + 1).drop_last() =~= s.take(i));
        assert(s.take(i + 1).last() == s[i]);
        assert(all_digits(s.take(i))) by {
            assert(forall|j: int| 0 <= j < i ==> s.take(i)[j] == s[j]);
        }
        lemma_dec_val_nonneg(s.take(i));
    }
}

/// Parse a decimal u32: the whole text must be one or more digits and the
/// value must fit.
pub fn parse_u32(s: &str) -> (r: Option<u32>)
    ensures
        r is Some <==> (s@.len() > 0 && all_digits(s@) && dec_val(s@) <= u32::MAX),
        r matches Some(v) ==> v == dec_val(s@),
{
    let len = s.unicode_len();
    if len == 0 {
        return None;
    }
    let mut acc: u32 = 0;
    let mut i: usize = 0;
    while i < len
        invariant
            len == s@.len(),
            0 < len,
            i <= len,
            all_digits(s@.take(i as int)),
            acc == dec_val(s@.take(i as int)),
        decreases len - i,
    {
        let c = s.get_char(i);
        let cv = c as u32;
        proof {
            assert(is_ascii_digit_char(c) == (48 <= cv && cv <= 57));
        }
        if !(48 <= cv && cv <= 57) {
            proof {
                assert(!all_digits(s@));
            }
            return None;
        }
        let d: u32 = cv - 48;
        proof {
            assert(s@.take(i as int + 1).drop_last() =~= s@.take(i as int));
            assert(s@.take(i as int + 1).last() == s@[i as int]);
            assert(dec_val(s@.take(i as int + 1)) == acc * 10 + d);
            assert(all_digits(s@.take(i as int + 1))) by {
                assert(forall|j: int|
                    0 <= j < i as int + 1 ==> s@.take(i as int + 1)[j] == s@[j]);
            }
        }
        if acc > 429496729 || (acc == 429496729 && d > 5) {
            proof {
                assert(dec_val(s@.take(i as int + 1)) > u32::MAX);
                if all_digits(s@) {
                    lemma_dec_val_prefix(s@, i as int + 1);
                }
            }
            return None;
        }
        acc = acc * 10 + d;
        i = i + 1;
    }
    proof {
        assert(s@.take(len as int) =~= s@);
    }
    Some(acc)
}

/// Parse a decimal u16.
pub fn parse_u16(s: &str) -> (r: Option<u16>)
    ensures
        r is Some <==> (s@.len() > 0 && all_digits(s@) && dec_val(s@) <= u16::MAX),
        r matches Some(v) ==> v == dec_val(s@),
{
    match parse_u32(s) {
        None => None,
        Some(v) => if v <= 65535 {
            Some(v as u16)
        } else {
            None
        },
    }
}

/// After a release tag's integer part: any run of groups of a dot and a
/// single digit.
pub open spec fn dot_digit_groups(t: Seq<char>) -> bool
    decreases t.len(),
{
    if t.len() == 0 {
        true
    } else {
        &&& t.len() >= 2
        &&& t[0] == '.'
        &&& is_ascii_digit_char(t[1])
        &&& dot_digit_groups(t.skip(2))
    }
}

/// Digits continuing a release tag's integer part, then dot-digit groups.
pub open spec fn tag_tail(t: Seq<char>) -> bool
    decreases t.len(),
{
    if t.len() == 0 {
        true
    } else if is_ascii_digit_char(t[0]) {
        tag_tail(t.drop_first())
    } else {
        dot_digit_groups(t)
    }
}

/// The shape of a release tag: an optional leading 'v', then one or more
/// digits, then any number of groups of a dot and a single digit.
pub open spec fn spec_is_version_tag(s: Seq<char>) -> bool {
    let t = if s.len() > 0 && s[0] == 'v' {
        s.drop_first()
    } else {
        s
    };
    t.len() > 0 && is_ascii_digit_char(t[0]) && tag_tail(t.drop_first())
}

proof fn lemma_tag_tail_over_digits(s: Seq<char>, a: int, b: int)
    requires
        0 <= a <= b <= s.len(),
        forall|j: int| a <= j < b ==> is_ascii_digit_char(s[j]),
    ensures
        tag_tail(s.skip(a)) == tag_tail(s.skip(b)),
    decreases b - a,
{
    if a < b {
        assert(s.skip(a)[0] == s[a]);
        assert(s.skip(a).drop_first() =~= s.skip(a + 1));
        lemma_tag_tail_over_digits(s, a + 1, b);
    }
}

/// The end of the run of digits that starts at `start`.
fn scan_digits(s: &str, start: usize, len: usize) -> (e: usize)
    requires
        len == s@.len(),
        start <= len,
    ensures
        start <= e <= len,
        forall|j: int| start <= j < e ==> is_ascii_digit_char(s@[j]),
        e < len ==> !is_ascii_digit_char(s@[e as int]),
{
    let mut e: usize = start;
    while e < len
        invariant
            len == s@.len(),
            start <= e <= len,
            forall|j: int| start <= j < e ==> is_ascii_digit_char(s@[j]),
        decreases len - e,
    {
        let c = s.get_char(e);
        let cv = c as u32;
        proof {
            assert(is_ascii_digit_char(c) == (48 <= cv && cv <= 57));
        }
        if !(48 <= cv && cv <= 57) {
            return e;
        }
        e = e + 1;
    }
    e
}

/// Whether a release tag published for the launcher names a version.
pub fn is_version_tag(s: &str) -> (r: bool)
    ensures
        r == spec_is_version_tag(s@),
{
    let len = s.unicode_len();
    let mut i: usize = 0;
    if len > 0 && s.get_char(0) == 'v' {
        i = 1;
    }
    proof {
        if s@.len() > 0 && s@[0] == 'v' {
            assert(s@.drop_first() =~= s@.skip(1));
        } else {
            assert(s@ =~= s@.skip(0));
        }
    }
    if i >= len {
        return false;
    }
    let c0 = s.get_char(i);
    let c0v = c0 as u32;
    proof {
        assert(is_ascii_digit_char(c0) == (48 <= c0v && c0v <= 57));
    }
    if !(48 <= c0v && c0v <= 57) {
        return false;
    }
    proof {
        assert(s@.skip(i as int).drop_first() =~= s@.skip(i as int + 1));
    }
    i = i + 1;
    let after_digits = scan_digits(s, i, len);
    proof {
        lemma_tag_tail_over_digits(s@, i as int, after_digits as int);
    }
    i = after_digits;
    if i == len {
        proof {
            assert(s@.skip(len as int) =~= Seq::<char>::empty());
        }
        return true;
    }
    // the integer part has ended; what follows must be dot-digit groups
    proof {
        assert(s@.skip(i as int)[0] == s@[i as int]);
        assert(tag_tail(s@.skip(i as int)) == dot_digit_groups(s@.skip(i as int)));
    }
    while i < len
        invariant
            len == s@.len(),
            i <= len,
            spec_is_version_tag(s@) == dot_digit_groups(s@.skip(i as int)),
        decreases len - i,
    {
        proof {
            assert(s@.skip(i as int)[0] == s@[i as int]);
        }
        if s.get_char(i) != '.' {
            return false;
        }
        if i + 1 >= len {
            return false;
        }
        let d = s.get_char(i + 1);
        let dv = d as u32;
        proof {
            assert(is_ascii_digit_char(d) == (48 <= dv && dv <= 57));
            assert(s@.skip(i as int)[1] == s@[i as int + 1]);
            assert(s@.skip(i as int).skip(2) =~= s@.skip(i as int + 2));
        }
        if !(48 <= dv && dv <= 57) {
            return false;
        }
        i = i + 2;
    }
    proof {
        assert(s@.skip(len as int) =~= Seq::<char>::empty());
    }
    true
}

/// Turning one path character into URI form.
pub open spec fn slash_of() -> spec_fn(char) -> char {
    |c: char|
        if c == '\\' {
            '/'
        } else {
            c
        }
}

/// The path with every backslash turned into a forward slash.
pub open spec fn forward_slashed(s: Seq<char>) -> Seq<char> {
    s.map_values(slash_of())
}

/// A filesystem path as a file URI, with the extra slash that Windows
/// drive-letter paths need and every backslash turned forward.
pub fn get_path_as_file_uri(path: &str, windows_style: bool) -> (r: String)
    ensures
        r@ == (if windows_style {
            "file:///"@
        } else {
            "file://"@
        }) + forward_slashed(path@),
{
    let len = path.unicode_len();
    let mut v: Vec<char> = Vec::new();
    let mut i: usize = 0;
    let ghost f = slash_of();
    proof {
        assert(path@.take(0) =~= Seq::<char>::empty());
        assert(Seq::<char>::empty().map_values(f) =~= Seq::<char>::empty());
    }
    while i < len
        invariant
            len == path@.len(),
            i <= len,
            f == slash_of(),
            v@ == path@.take(i as int).map_values(f),
        decreases len - i,
    {
        let c = path.get_char(i);
        let converted = if c == '\\' {
            '/'
        } else {
            c
        };
        proof {
            path@.lemma_take_succ_push(i as int);
            path@.take(i as int).lemma_push_map_commute(f, path@[i as int]);
            assert(converted == f(path@[i as int]));
        }
        v.push(converted);
        i = i + 1;
    }
    proof {
        assert(path@.take(len as int) =~= path@);
    }
    let mut r = if windows_style {
        "file:///".to_owned()
    } else {
        "file://".to_owned()
    };
    let tail = chars_to_string(&v);
    r.append(tail.as_str());
    r
}

/// The port a game server address text names when it is absent.
pub const DEFAULT_GAME_PORT: u16 = 23000;

/// A dot-delimited run of a version text: it starts at `b` and ends at
/// `e`, at the next dot or at the end.
pub open spec fn dot_segment(s: Seq<char>, b: int, e: int) -> bool {
    &&& 0 <= b <= e <= s.len()
    &&& (e == s.len() || s[e] == '.')
    &&& (forall|j: int| b <= j < e ==> s[j] != '.')
}

/// A version part that contributes to the packed code: non-empty digits
/// whose value fits a u32.
pub open spec fn u32_part_ok(p: Seq<char>) -> bool {
    p.len() > 0 && all_digits(p) && dec_val(p) <= u32::MAX
}

proof fn lemma_dot_segment_unique(s: Seq<char>, a: int, x: int, y: int)
    requires
        dot_segment(s, a, x),
        dot_segment(s, a, y),
    ensures
        x == y,
{
    if x < y {
        assert(s[x] != '.');
    }
    if y < x {
        assert(s[y] != '.');
    }
}

/// The end of the dot-free run that starts at `start`.
fn scan_to_dot(s: &str, start: usize, len: usize) -> (e: usize)
    requires
        len == s@.len(),
        start <= len,
    ensures
        dot_segment(s@, start as int, e as int),
{
    let mut e: usize = start;
    while e < len
        invariant
            len == s@.len(),
            start <= e <= len,
            forall|j: int| start <= j < e ==> s@[j] != '.',
        decreases len - e,
    {
        if s.get_char(e) == '.' {
            return e;
        }
        e = e + 1;
    }
    e
}

/// Pack a dotted version text into one comparable number: the major part
/// in the high half, then the minor and patch parts in the next two bytes;
/// a missing minor or patch counts as zero, and anything after the patch
/// part is ignored.  Each present part must be a decimal number that fits
/// a u32.
pub fn string_version_to_u32(version: &str) -> (r: Option<u32>)
    ensures
        forall|e1: int|
            #[trigger] dot_segment(version@, 0, e1) ==> {
                let p1 = version@.subrange(0, e1);
                if !u32_part_ok(p1) {
                    r is None
                } else if e1 == version@.len() {
                    (r matches Some(v) && v == (dec_val(p1) as u32) << 16u32)
                } else {
                    forall|e2: int|
                        #[trigger] dot_segment(version@, e1 + 1, e2) ==> {
                            let p2 = version@.subrange(e1 + 1, e2);
                            if !u32_part_ok(p2) {
                                r is None
                            } else if e2 == version@.len() {
                                (r matches Some(v) && v == ((dec_val(p1) as u32) << 16u32) | (
                                (dec_val(p2) as u32) << 8u32))
                            } else {
                                forall|e3: int|
                                    #[trigger] dot_segment(version@, e2 + 1, e3) ==> {
                                        let p3 = version@.subrange(e2 + 1, e3);
                                        if !u32_part_ok(p3) {
                                            r is None
                                        } else {
                                            (r matches Some(v) && v == ((dec_val(p1) as u32)
                                                << 16u32) | ((dec_val(p2) as u32) << 8u32) | (
                                            dec_val(p3) as u32))
                                        }
                                    }
                            }
                        }
                }
            },
{
    let len = version.unicode_len();
    let e1 = scan_to_dot(version, 0, len);
    proof {
        assert forall|x: int| #[trigger] dot_segment(version@, 0, x) implies x == e1 as int by {
            lemma_dot_segment_unique(version@, 0, x, e1 as int);
        }
    }
    let major = match parse_u32(version.substring_char(0, e1)) {
        Some(v) => v,
        None => {
            return None;
        },
    };
    if e1 == len {
        return Some(major << 16u32);
    }
    let e2 = scan_to_dot(version, e1 + 1, len);
    proof {
        assert forall|x: int| #[trigger] dot_segment(version@, e1 as int + 1, x) implies x == e2
            as int by {
            lemma_dot_segment_unique(version@, e1 as int + 1, x, e2 as int);
        }
    }
    let minor = match parse_u32(version.substring_char(e1 + 1, e2)) {
        Some(v) => v,
        None => {
            return None;
        },
    };
    if e2 == len {
        return Some((major << 16u32) | (minor << 8u32));
    }
    let e3 = scan_to_dot(version, e2 + 1, len);
    proof {
        assert forall|x: int| #[trigger] dot_segment(version@, e2 as int + 1, x) implies x == e3
            as int by {
            lemma_dot_segment_unique(version@, e2 as int + 1, x, e3 as int);
        }
    }
    let patch = match parse_u32(version.substring_char(e2 + 1, e3)) {
        Some(v) => v,
        None => {
            return None;
        },
    };
    Some((major << 16u32) | (minor << 8u32) | patch)
}

/// Where the first colon splits an "address:port" text: `i` is the first
/// colon, and `e` ends the port token, at the next colon or at the end.
pub open spec fn colon_split(s: Seq<char>, i: int, e: int) -> bool {
    &&& 0 <= i < s.len()
    &&& s[i] == ':'
    &&& (forall|j: int| 0 <= j < i ==> s[j] != ':')
    &&& i < e <= s.len()
    &&& (e == s.len() || s[e] == ':')
    &&& (forall|j: int| i < j < e ==> s[j] != ':')
}

/// Split a game server address into host and port.  Without a colon the
/// whole text is the host and the port defaults; with one, the token after
/// the first colon must be a decimal u16; anything after a second colon is
/// ignored.
pub fn split_addr_port(addr_port: &str) -> (r: Option<(String, u16)>)
    ensures
        (forall|j: int| 0 <= j < addr_port@.len() ==> addr_port@[j] != ':') ==> (
        r matches Some(p) && p.0@ == addr_port@ && p.1 == DEFAULT_GAME_PORT),
        forall|i: int, e: int|
            colon_split(addr_port@, i, e) ==> {
                let t = addr_port@.subrange(i + 1, e);
                if t.len() > 0 && all_digits(t) && dec_val(t) <= u16::MAX {
                    r matches Some(p) && p.0@ == addr_port@.take(i) && p.1 == dec_val(t)
                } else {
                    r is None
                }
            },
{
    let len = addr_port.unicode_len();
    let mut i: usize = 0;
    let mut found: bool = false;
    while !found && i < len
        invariant
            len == addr_port@.len(),
            i <= len,
            forall|j: int| 0 <= j < i ==> addr_port@[j] != ':',
            found ==> (i < len && addr_port@[i as int] == ':'),
        decreases len - i, (if found { 0int } else { 1int }),
    {
        if addr_port.get_char(i) == ':' {
            found = true;
        } else {
            i = i + 1;
        }
    }
    if !found {
        return Some((addr_port.to_owned(), DEFAULT_GAME_PORT));
    }
    let mut e: usize = i + 1;
    let mut found2: bool = false;
    while !found2 && e < len
        invariant
            len == addr_port@.len(),
            i < len,
            addr_port@[i as int] == ':',
            forall|j: int| 0 <= j < i ==> addr_port@[j] != ':',
            i < e <= len,
            forall|j: int| i < j < e ==> addr_port@[j] != ':',
            found2 ==> (e < len && addr_port@[e as int] == ':'),
        decreases len - e, (if found2 { 0int } else { 1int }),
    {
        if addr_port.get_char(e) == ':' {
            found2 = true;
        } else {
            e = e + 1;
        }
    }
    proof {
        assert(colon_split(addr_port@, i as int, e as int));
        assert forall|i2: int, e2: int|
            colon_split(addr_port@, i2, e2) implies i2 == i as int && e2 == e as int by {
            if i2 < i as int {
                assert(addr_port@[i2] != ':');
            }
            if i2 > i as int {
                assert(addr_port@[i as int] != ':');
            }
            if e2 < e as int {
                assert(addr_port@[e2] != ':');
            }
            if e2 > e as int {
                assert(addr_port@[e as int] != ':');
            }
        }
    }
    let port_str = addr_port.substring_char(i + 1, e);
    match parse_u16(port_str) {
        Some(p) => {
            let host = addr_port.substring_char(0, i).to_owned();
            proof {
                assert(host@ =~= addr_port@.take(i as int));
            }
            Some((host, p))
        },
        None => None,
    }
}

} // verus!


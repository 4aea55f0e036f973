use vstd::prelude::*;

verus! {

/// Errors raised while shaping sensor readings into a CPU topology.
#[derive(Debug, Clone, Copy, PartialEq, Eq, Structural)]
pub enum ThermalError {
    /// A chip name, feature label or value could not be read.
    SensorRead,
    /// A feature label is empty, or a `Core` label has no id token.
    MalformedLabel,
    /// The id token of a `Core` label is not an integer in `0..=255`.
    InvalidCoreId,
}

/// Unicode `White_Space`, as `char::is_whitespace` documents it.
pub open spec fn is_ws(c: char) -> bool {
    let u = c as u32;
    (0x9 <= u && u <= 0xD) || u == 0x20 || u == 0x85 || u == 0xA0 || u == 0x1680
        || (0x2000 <= u && u <= 0x200A) || u == 0x2028 || u == 0x2029 || u == 0x202F
        || u == 0x205F || u == 0x3000
}

/// First position at or after `i` that is not whitespace (or the end).
pub open spec fn skip_ws(s: Seq<char>, i: int) -> int
    decreases s.len() - i,
{
    if 0 <= i < s.len() && is_ws(s[i]) {
        skip_ws(s, i + 1)
    } else {
        i
    }
}

/// First position at or after `i` that is whitespace (or the end).
pub open spec fn skip_word(s: Seq<char>, i: int) -> int
    decreases s.len() - i,
{
    if 0 <= i < s.len() && !is_ws(s[i]) {
        skip_word(s, i + 1)
    } else {
        i
    }
}

/// The first whitespace-separated token of `s` (empty when there is none).
pub open spec fn first_token(s: Seq<char>) -> Seq<char> {
    let a = skip_ws(s, 0);
    s.subrange(a, skip_word(s, a))
}

/// The second whitespace-separated token of `s` (empty when there is none).
pub open spec fn second_token(s: Seq<char>) -> Seq<char> {
    let b = skip_ws(s, skip_word(s, skip_ws(s, 0)));
    s.subrange(b, skip_word(s, b))
}

/// What a feature label denotes.
#[derive(Debug, Clone, PartialEq, Eq)]
pub enum Role {
    /// The whole-package sensor.
    Package,
    /// A per-core sensor, with the label's id token.
    Core(String),
    /// Any other feature; it is ignored.
    Unclassified,
}

/// Mathematical form of a [`Role`].
pub enum RoleView {
    Package,
    Core(Seq<char>),
    Unclassified,
}

impl View for Role {
    type V = RoleView;

    open spec fn view(&self) -> RoleView {
        match self {
            Role::Package => RoleView::Package,
            Role::Core(t) => RoleView::Core(t@),
            Role::Unclassified => RoleView::Unclassified,
        }
    }
}

/// Classification of a label by its first two tokens.
pub open spec fn classify_spec(s: Seq<char>) -> Result<RoleView, ThermalError> {
    let first = first_token(s);
    if first.len() == 0 {
        Err(ThermalError::MalformedLabel)
    } else if first == "Package"@ {
        Ok(RoleView::Package)
    } else if first == "Core"@ {
        if second_token(s).len() == 0 {
            Err(ThermalError::MalformedLabel)
        } else {
            Ok(RoleView::Core(second_token(s)))
        }
    } else {
        Ok(RoleView::Unclassified)
    }
}

/// Exec form of [`is_ws`].
pub fn is_whitespace(c: char) -> (r: bool)
    ensures
        r == is_ws(c),
{
    let u = c as u32;
    (0x9 <= u && u <= 0xD) || u == 0x20 || u == 0x85 || u == 0xA0 || u == 0x1680 || (0x2000
        <= u && u <= 0x200A) || u == 0x2028 || u == 0x2029 || u == 0x202F || u == 0x205F || u
        == 0x3000
}

fn skip_from(s: &str, len: usize, i: usize, over_ws: bool) -> (j: usize)
    requires
        len == s@.len(),
        i <= len,
    ensures
        over_ws ==> j == skip_ws(s@, i as int),
        !over_ws ==> j == skip_word(s@, i as int),
        i <= j <= len,
{
    let mut j: usize = i;
    while j < len && is_whitespace(s.get_char(j)) == over_ws
        invariant
            len == s@.len(),
            i <= j <= len,
            over_ws ==> skip_ws(s@, j as int) == skip_ws(s@, i as int),
            !over_ws ==> skip_word(s@, j as int) == skip_word(s@, i as int),
        decreases len - j,
    {
        j = j + 1;
    }
    j
}

/// Whether two strings hold the same characters.
pub(crate) fn same_chars(a: &str, b: &str) -> (r: bool)
    ensures
        r == (a@ == b@),
{
    let n = a.unicode_len();
    if n != b.unicode_len() {
        return false;
    }
    let mut i: usize = 0;
    while i < n
        invariant
            n == a@.len(),
            n == b@.len(),
            i <= n,
            a@.subrange(0, i as int) == b@.subrange(0, i as int),
        decreases n - i,
    {
        if a.get_char(i) != b.get_char(i) {
            return false;
        }
        assert(a@.subrange(0, i + 1) =~= a@.subrange(0, i as int).push(a@[i as int]));
        assert(b@.subrange(0, i + 1) =~= b@.subrange(0, i as int).push(b@[i as int]));
        i = i + 1;
    }
    assert(a@ =~= a@.subrange(0, n as int));
    assert(b@ =~= b@.subrange(0, n as int));
    true
}

/// Splits a label on whitespace and classifies it by its first token:
/// `Package`, `Core <id>`, or anything else.
pub fn classify(label: &str) -> (r: Result<Role, ThermalError>)
    ensures
        r.is_ok() == classify_spec(label@).is_ok(),
        r is Ok ==> classify_spec(label@) == Ok::<RoleView, ThermalError>(r->Ok_0@),
        r is Err ==> classify_spec(label@) == Err::<RoleView, ThermalError>(r->Err_0),
{
    let len = label.unicode_len();
    let a = skip_from(label, len, 0, true);
    let b = skip_from(label, len, a, false);
    if a == b {
        return Err(ThermalError::MalformedLabel);
    }
    let first = label.substring_char(a, b);
    if same_chars(first, "Package") {
        return Ok(Role::Package);
    }
    if same_chars(first, "Core") {
        let c = skip_from(label, len, b, true);
        let d = skip_from(label, len, c, false);
        if c == d {
            return Err(ThermalError::MalformedLabel);
        }
        return Ok(Role::Core(label.substring_char(c, d).to_owned()));
    }
    Ok(Role::Unclassified)
}


/// Whether every character of `s` is an ASCII digit.
pub open spec fn all_digits(s: Seq<char>) -> bool {
    forall|i: int| 0 <= i < s.len() ==> '0' <= #[trigger] s[i] && s[i] <= '9'
}

/// Decimal value of a run of ASCII digits.
pub open spec fn digits_value(s: Seq<char>) -> int
    decreases s.len(),
{
    if s.len() == 0 {
        0
    } else {
        digits_value(s.drop_last()) * 10 + (s.last() as int - '0' as int)
    }
}

/// The digits of an unsigned literal, after an optional leading `+`.
pub open spec fn unsigned_digits(s: Seq<char>) -> Seq<char> {
    if s.len() > 0 && s[0] == '+' {
        s.drop_first()
    } else {
        s
    }
}

/// What `u8`'s `FromStr` yields: an optional `+`, at least one ASCII digit,
/// and a value of at most 255.
pub open spec fn parse_u8_spec(s: Seq<char>) -> Option<u8> {
    let d = unsigned_digits(s);
    if d.len() > 0 && all_digits(d) && digits_value(d) <= 255 {
        Some(digits_value(d) as u8)
    } else {
        None
    }
}

proof fn lemma_digits_value_nonneg(s: Seq<char>)
    requires
        all_digits(s),
    ensures
        digits_value(s) >= 0,
    decreases s.len(),
{
    if s.len() > 0 {
        assert(all_digits(s.drop_last()));
        lemma_digits_value_nonneg(s.drop_last());
        assert('0' <= s[s.len() - 1]);
    }
}

/// Reads the id token of a `Core` label as an integer in `0..=255`.
pub fn parse_core_id(token: &str) -> (r: Result<u8, ThermalError>)
    ensures
        match parse_u8_spec(token@) {
            Some(v) => r == Ok::<u8, ThermalError>(v),
            None => r == Err::<u8, ThermalError>(ThermalError::InvalidCoreId),
        },
{
    let len = token.unicode_len();
    let mut start: usize = 0;
    if len > 0 && token.get_char(0) == '+' {
        start = 1;
    }
    let ghost d = unsigned_digits(token@);
    assert(d =~= token@.subrange(start as int, len as int));
    if start == len {
        return Err(ThermalError::InvalidCoreId);
    }
    let mut value: u32 = 0;
    let mut too_big = false;
    let mut i: usize = start;
    while i < len
        invariant
            len == token@.len(),
            start <= i <= len,
            d == token@.subrange(start as int, len as int),
            d == unsigned_digits(token@),
            all_digits(d.subrange(0, i - start)),
            value <= 255,
            !too_big ==> value as int == digits_value(d.subrange(0, i - start)),
            too_big ==> digits_value(d.subrange(0, i - start)) > 255,
        decreases len - i,
    {
        let c = token.get_char(i);
        if c < '0' || c > '9' {
            assert(d[i - start] == c);
            assert(!all_digits(d));
            return Err(ThermalError::InvalidCoreId);
        }
        let ghost p = d.subrange(0, i - start);
        let ghost q = d.subrange(0, i + 1 - start);
        assert(q.drop_last() =~= p);
        assert(q.last() == c);
        assert(all_digits(q)) by {
            assert forall|k: int| 0 <= k < q.len() implies '0' <= #[trigger] q[k] && q[k] <= '9' by {
                if k < p.len() {
                    assert(q[k] == p[k]);
                }
            }
        }
        proof {
            lemma_digits_value_nonneg(p);
        }
        if !too_big {
            let next = value * 10 + (c as u32 - '0' as u32);
            if next > 255 {
                too_big = true;
                value = 0;
            } else {
                value = next;
            }
        }
        i = i + 1;
    }
    assert(d.subrange(0, len - start) =~= d);
    if too_big {
        Err(ThermalError::InvalidCoreId)
    } else {
        Ok(value as u8)
    }
}

} // verus!

//! Common metric metadata: the lifetime of a stored value, the metadata
//! block shared by every metric, and the identifier derivation rules.

use vstd::prelude::*;
use vstd::string::StringExecFns;
use vstd::string::StrSliceExecFns;

verus! {

/// The reset cadence of a stored metric value.
#[derive(Copy, Clone, Debug, PartialEq, Eq, Structural)]
pub enum Lifetime {
    /// The metric is reset with each sent ping.
    Ping,
    /// The metric is reset on application restart.
    Application,
    /// The metric lives as long as the user profile.
    User,
}

impl Default for Lifetime {
    fn default() -> (lifetime: Self)
        ensures
            lifetime == Lifetime::Ping,
    {
        Lifetime::Ping
    }
}

/// The metadata every metric carries: its name, its category, the pings
/// its value is sent in, its lifetime and whether recording is disabled.
#[derive(Clone, Debug)]
pub struct CommonMetricData {
    /// The metric's name.  For a labeled metric instance the name ends
    /// in `/label`.
    pub name: String,
    /// The metric's category.
    pub category: String,
    /// The pings this metric's value is copied into during assembly.
    pub send_in_pings: Vec<String>,
    /// The reset cadence of the stored value.
    pub lifetime: Lifetime,
    /// Whether recording into this metric is disabled.
    pub disabled: bool,
}

/// The full identifier of a metric: `category.name`, or plain `name`
/// when the category is empty.
pub open spec fn spec_identifier(category: Seq<char>, name: Seq<char>) -> Seq<char> {
    if category.len() == 0 {
        name
    } else {
        category + "."@ + name
    }
}

impl CommonMetricData {
    /// The metric's full identifier.
    pub fn identifier(&self) -> (id: String)
        ensures
            id@ == spec_identifier(self.category@, self.name@),
    {
        if self.category.as_str().is_empty() {
            self.name.clone()
        } else {
            let mut id = self.category.clone();
            id.append(".");
            id.append(self.name.as_str());
            id
        }
    }
}

impl Default for CommonMetricData {
    fn default() -> (meta: Self)
        ensures
            meta.name@ == Seq::<char>::empty(),
            meta.category@ == Seq::<char>::empty(),
            meta.send_in_pings@ == Seq::<String>::empty(),
            meta.lifetime == Lifetime::Ping,
            meta.disabled == false,
    {
        CommonMetricData {
            name: String::new(),
            category: String::new(),
            send_in_pings: Vec::new(),
            lifetime: Lifetime::Ping,
            disabled: false,
        }
    }
}

/// Character-wise string comparison: true exactly when the two views
/// are the same sequence of characters.
pub fn str_eq(a: &str, b: &str) -> (r: bool)
    ensures
        r == (a@ == b@),
{
    let n = a.unicode_len();
    if n != b.unicode_len() {
        return false;
    }
    let mut i: usize = 0;
    while i < n
        invariant
            i <= n,
            n == a@.len(),
            n == b@.len(),
            forall|j: int| 0 <= j < i ==> a@[j] == b@[j],
        decreases n - i,
    {
        if a.get_char(i) != b.get_char(i) {
            return false;
        }
        i += 1;
    }
    proof {
        assert(a@ =~= b@);
    }
    true
}

/// The character of a single decimal digit.
pub open spec fn digit_char(d: nat) -> char {
    if d == 0 {
        '0'
    } else if d == 1 {
        '1'
    } else if d == 2 {
        '2'
    } else if d == 3 {
        '3'
    } else if d == 4 {
        '4'
    } else if d == 5 {
        '5'
    } else if d == 6 {
        '6'
    } else if d == 7 {
        '7'
    } else if d == 8 {
        '8'
    } else {
        '9'
    }
}

/// The decimal digits of a non-negative integer, most significant
/// first.
pub open spec fn spec_digits(n: nat) -> Seq<char>
    decreases n,
{
    if n < 10 {
        seq![digit_char(n)]
    } else {
        spec_digits(n / 10).push(digit_char(n % 10))
    }
}

/// The decimal rendering of an integer: its digits, preceded by a
/// minus sign when it is negative.
pub open spec fn spec_decimal(v: int) -> Seq<char> {
    if v < 0 {
        seq!['-'] + spec_digits((-v) as nat)
    } else {
        spec_digits(v as nat)
    }
}

/// The single-character string of one decimal digit.
fn digit_str(d: u64) -> (s: &'static str)
    requires
        d < 10,
    ensures
        s@ == seq![digit_char(d as nat)],
{
    let s = match d {
        0 => "0",
        1 => "1",
        2 => "2",
        3 => "3",
        4 => "4",
        5 => "5",
        6 => "6",
        7 => "7",
        8 => "8",
        _ => "9",
    };
    proof {
        reveal_strlit("0");
        reveal_strlit("1");
        reveal_strlit("2");
        reveal_strlit("3");
        reveal_strlit("4");
        reveal_strlit("5");
        reveal_strlit("6");
        reveal_strlit("7");
        reveal_strlit("8");
        reveal_strlit("9");
        assert(s@ =~= seq![digit_char(d as nat)]);
    }
    s
}

/// Appends the decimal digits of `n` to `s`, most significant first.
fn push_digits(s: &mut String, n: u64)
    ensures
        final(s)@ == old(s)@ + spec_digits(n as nat),
    decreases n,
{
    if n < 10 {
        s.append(digit_str(n));
        proof {
            assert(final(s)@ =~= old(s)@ + spec_digits(n as nat));
        }
    } else {
        push_digits(s, n / 10);
        s.append(digit_str(n % 10));
        proof {
            assert(spec_digits(n as nat) == spec_digits(n as nat / 10).push(
                digit_char(n as nat % 10),
            ));
            assert(final(s)@ =~= old(s)@ + spec_digits(n as nat));
        }
    }
}

/// Renders an integer in decimal, exactly as the spec-level decimal
/// rendering reads.
pub fn decimal_string(v: i32) -> (s: String)
    ensures
        s@ == spec_decimal(v as int),
{
    let mut s = String::new();
    let magnitude: u64 = if v < 0 {
        s.append("-");
        (-(v as i64)) as u64
    } else {
        v as u64
    };
    proof {
        reveal_strlit("-");
        if v < 0 {
            assert(s@ =~= seq!['-']);
        }
    }
    push_digits(&mut s, magnitude);
    proof {
        assert(s@ =~= spec_decimal(v as int));
    }
    s
}

/// Copies a vector of strings, element by element.
pub fn clone_string_vec(v: &Vec<String>) -> (r: Vec<String>)
    ensures
        r@ == v@,
{
    let n = v.len();
    let mut r: Vec<String> = Vec::new();
    let mut i: usize = 0;
    while i < n
        invariant
            i <= n,
            n == v@.len(),
            r@ =~= v@.take(i as int),
        decreases n - i,
    {
        r.push(v[i].clone());
        i += 1;
    }
    proof {
        assert(v@.take(n as int) =~= v@);
    }
    r
}

/// The position of the first `/` in `s`, or `s.len()` if there is none.
pub open spec fn first_slash(s: Seq<char>) -> int
    decreases s.len(),
{
    if s.len() == 0 {
        0
    } else if s[0] == '/' {
        0
    } else {
        1 + first_slash(s.drop_first())
    }
}

/// The identifier with any trailing `/label` suffix split off: the
/// prefix of `s` up to (excluding) its first `/`.
pub open spec fn base_identifier(s: Seq<char>) -> Seq<char> {
    s.subrange(0, first_slash(s))
}

/// `first_slash` points at the first `/` of the sequence: it is in
/// bounds, everything before it is not a `/`, and it lands on a `/`
/// unless there is none at all.
pub proof fn lemma_first_slash(s: Seq<char>)
    ensures
        0 <= first_slash(s) <= s.len(),
        first_slash(s) < s.len() ==> s[first_slash(s)] == '/',
        forall|j: int| 0 <= j < first_slash(s) ==> s[j] != '/',
    decreases s.len(),
{
    if s.len() == 0 {
    } else if s[0] == '/' {
    } else {
        lemma_first_slash(s.drop_first());
        assert forall|j: int| 0 <= j < first_slash(s) implies s[j] != '/' by {
            if j > 0 {
                assert(s.drop_first()[j - 1] == s[j]);
            }
        }
    }
}

/// Splits off any trailing `/label` suffix from an identifier: keeps
/// the first segment of a split on `/`.
pub fn strip_label(s: &str) -> (base: &str)
    ensures
        base@ == base_identifier(s@),
{
    proof {
        lemma_first_slash(s@);
    }
    let n = s.unicode_len();
    let mut i: usize = 0;
    while i < n
        invariant
            i <= n,
            n == s@.len(),
            forall|j: int| 0 <= j < i ==> s@[j] != '/',
        decreases n - i,
    {
        if s.get_char(i) == '/' {
            proof {
                lemma_first_slash(s@);
                assert(first_slash(s@) == i);
            }
            return s.substring_char(0, i);
        }
        i += 1;
    }
    proof {
        lemma_first_slash(s@);
        assert(first_slash(s@) == n);
    }
    s.substring_char(0, n)
}

} // verus!

use vstd::prelude::*;
use vstd::string::{StrSliceExecFns, StringExecFns};

verus! {

/// `KVM_REG_ARM64 | KVM_REG_SIZE_U64 | KVM_REG_ARM_CORE`: the common part of
/// every 64-bit AArch64 core-register id.
pub const CORE_REG_BASE: u64 = 0x6030_0000_0010_0000;

/// Why a register name could not be turned into a KVM register id.
#[derive(Debug, Clone, Copy, PartialEq, Eq)]
pub enum RegError {
    /// An `x` register whose number is not a decimal `u64`.
    InvalidNumber,
    /// A name that is neither `x<n>`, `sp`, `pc` nor `pstate`.
    InvalidRegister,
}

pub open spec fn is_decimal_digit(c: char) -> bool {
    '0' <= c && c <= '9'
}

pub open spec fn all_decimal_digits(s: Seq<char>) -> bool {
    forall|i: int| 0 <= i < s.len() ==> is_decimal_digit(#[trigger] s[i])
}

pub open spec fn digit_value(c: char) -> nat {
    (c as u32 - '0' as u32) as nat
}

/// The number written by the decimal digits `s`, most significant first.
pub open spec fn digits_value(s: Seq<char>) -> nat
    decreases s.len(),
{
    if s.len() == 0 {
        0
    } else {
        digits_value(s.drop_last()) * 10 + digit_value(s.last())
    }
}

/// What `u64::from_str` yields: an optional `+`, then one or more decimal
/// digits whose value fits in a `u64`.
pub open spec fn parse_u64_spec(s: Seq<char>) -> Option<u64> {
    let d = if s.len() > 0 && s[0] == '+' {
        s.drop_first()
    } else {
        s
    };
    if d.len() > 0 && all_decimal_digits(d) && digits_value(d) <= u64::MAX {
        Some(digits_value(d) as u64)
    } else {
        None
    }
}

/// The character of the decimal digit `d` (`d < 10`).
pub open spec fn digit_char(d: nat) -> char {
    if d == 0 {
        '0'
    } else if d == 1 {
        '1'
    } else if d == 2 {
        '2'
    } else if d == 3 {
        '3'
    } else if d == 4 {
        '4'
    } else if d == 5 {
        '5'
    } else if d == 6 {
        '6'
    } else if d == 7 {
        '7'
    } else if d == 8 {
        '8'
    } else {
        '9'
    }
}

/// The shortest decimal spelling of `n`.
pub open spec fn decimal_chars(n: nat) -> Seq<char>
    decreases n,
{
    if n < 10 {
        seq![digit_char(n)]
    } else {
        decimal_chars(n / 10).push(digit_char(n % 10))
    }
}

/// The KVM id that a register name denotes, or why it denotes none.
pub open spec fn core_reg_spec(name: Seq<char>) -> Result<u64, RegError> {
    if name.len() >= 1 && name[0] == 'x' {
        match parse_u64_spec(name.drop_first()) {
            Some(v) => Ok(CORE_REG_BASE | ((v * 2) as u64)),
            None => Err(RegError::InvalidNumber),
        }
    } else if name == seq!['s', 'p'] {
        Ok(CORE_REG_BASE | 62)
    } else if name == seq!['p', 'c'] {
        Ok(CORE_REG_BASE | 64)
    } else if name == seq!['p', 's', 't', 'a', 't', 'e'] {
        Ok(CORE_REG_BASE | 66)
    } else {
        Err(RegError::InvalidRegister)
    }
}

/// The names for which the id computation would overflow `u64`.
pub open spec fn core_reg_overflows(name: Seq<char>) -> bool {
    &&& name.len() >= 1
    &&& name[0] == 'x'
    &&& parse_u64_spec(name.drop_first()) is Some
    &&& parse_u64_spec(name.drop_first())->0 * 2 > u64::MAX
}

/// A prefix of a digit string never has a larger value than the whole string.
pub proof fn lemma_digits_value_prefix(d: Seq<char>, k: int)
    requires
        all_decimal_digits(d),
        0 <= k <= d.len(),
    ensures
        digits_value(d.subrange(0, k)) <= digits_value(d),
    decreases d.len(),
{
    if k < d.len() {
        let p = d.drop_last();
        assert(all_decimal_digits(p)) by {
            assert forall|i: int| 0 <= i < p.len() implies is_decimal_digit(#[trigger] p[i]) by {
                assert(p[i] == d[i]);
            }
        }
        lemma_digits_value_prefix(p, k);
        assert(p.subrange(0, k) =~= d.subrange(0, k));
    } else {
        assert(d.subrange(0, k) =~= d);
    }
}

/// The decimal value of the characters of `s` from index `start` on, read
/// as `u64::from_str` reads them.
fn parse_u64_from(s: &str, start: usize) -> (r: Option<u64>)
    requires
        start <= s@.len(),
    ensures
        r == parse_u64_spec(s@.subrange(start as int, s@.len() as int)),
{
    let ghost full = s@.subrange(start as int, s@.len() as int);
    let n = s.unicode_len();
    let mut i = start;
    if i < n && s.get_char(i) == '+' {
        i = i + 1;
    }
    let ghost d = s@.subrange(i as int, s@.len() as int);
    assert(d == (if full.len() > 0 && full[0] == '+' { full.drop_first() } else { full }));
    if i == n {
        return None;
    }
    let first = i;
    let mut v: u64 = 0;
    while i < n
        invariant
            first <= i <= n,
            n == s@.len(),
            d == s@.subrange(first as int, n as int),
            d.len() > 0,
            d == (if full.len() > 0 && full[0] == '+' { full.drop_first() } else { full }),
            full == s@.subrange(start as int, s@.len() as int),
            all_decimal_digits(d.subrange(0, i - first)),
            v as nat == digits_value(d.subrange(0, i - first)),
        decreases n - i,
    {
        let c = s.get_char(i);
        if !('0' <= c && c <= '9') {
            assert(!all_decimal_digits(d)) by {
                assert(d[i - first] == c);
            }
            return None;
        }
        let dv = (c as u32 - '0' as u32) as u64;
        let ghost next = d.subrange(0, i - first + 1);
        assert(next.drop_last() =~= d.subrange(0, i - first));
        assert(all_decimal_digits(next)) by {
            assert forall|j: int| 0 <= j < next.len() implies is_decimal_digit(#[trigger] next[j]) by {
                if j < next.len() - 1 {
                    assert(next[j] == d.subrange(0, i - first)[j]);
                }
            }
        }
        match v.checked_mul(10) {
            None => {
                proof {
                    if all_decimal_digits(d) {
                        lemma_digits_value_prefix(d, i - first + 1);
                    }
                }
                return None;
            },
            Some(m) => match m.checked_add(dv) {
                None => {
                    proof {
                        if all_decimal_digits(d) {
                            lemma_digits_value_prefix(d, i - first + 1);
                        }
                    }
                    return None;
                },
                Some(a) => {
                    v = a;
                },
            },
        }
        i = i + 1;
    }
    assert(d.subrange(0, n - first) =~= d);
    Some(v)
}

/// The KVM `ONE_REG` id of the AArch64 core register called `name`.
pub fn aarch64_core_reg(name: &str) -> (r: Result<u64, RegError>)
    requires
        !core_reg_overflows(name@),
    ensures
        r == core_reg_spec(name@),
{
    let base = CORE_REG_BASE;
    let n = name.unicode_len();
    if n >= 1 && name.get_char(0) == 'x' {
        let parsed = parse_u64_from(name, 1);
        assert(name@.subrange(1, name@.len() as int) =~= name@.drop_first());
        return match parsed {
            Some(reg) => Ok(base | reg * 2),
            None => Err(RegError::InvalidNumber),
        };
    }
    if n == 2 && name.get_char(0) == 's' && name.get_char(1) == 'p' {
        assert(name@ =~= seq!['s', 'p']);
        return Ok(base | (31 * 2));
    }
    if n == 2 && name.get_char(0) == 'p' && name.get_char(1) == 'c' {
        assert(name@ =~= seq!['p', 'c']);
        return Ok(base | (32 * 2));
    }
    if n == 6 && name.get_char(0) == 'p' && name.get_char(1) == 's' && name.get_char(2) == 't'
        && name.get_char(3) == 'a' && name.get_char(4) == 't' && name.get_char(5) == 'e' {
        assert(name@ =~= seq!['p', 's', 't', 'a', 't', 'e']);
        return Ok(base | (33 * 2));
    }
    Err(RegError::InvalidRegister)
}


/// The first id recorded for `name` in a list of (name, id) entries.
pub open spec fn first_entry(entries: Seq<(Seq<char>, u64)>, name: Seq<char>) -> Option<u64>
    decreases entries.len(),
{
    if entries.len() == 0 {
        None
    } else if entries[0].0 == name {
        Some(entries[0].1)
    } else {
        first_entry(entries.drop_first(), name)
    }
}

/// The register names that the lookup table knows: `x0` to `x29`, `sp`, `pc`
/// and `pstate`.
pub open spec fn is_table_reg_name(name: Seq<char>) -> bool {
    ||| exists|i: nat| i < 30 && name == seq!['x'] + #[trigger] decimal_chars(i)
    ||| name == seq!['s', 'p']
    ||| name == seq!['p', 'c']
    ||| name == seq!['p', 's', 't', 'a', 't', 'e']
}

/// A table from register names to KVM register ids.
pub struct RegisterTable {
    entries: Vec<(String, u64)>,
}

impl RegisterTable {
    pub closed spec fn entries_view(&self) -> Seq<(Seq<char>, u64)> {
        self.entries@.map_values(|e: (String, u64)| (e.0@, e.1))
    }
}

impl View for RegisterTable {
    type V = Map<Seq<char>, u64>;

    /// Each name maps to the first id recorded for it.
    closed spec fn view(&self) -> Map<Seq<char>, u64> {
        Map::new(
            |k: Seq<char>| first_entry(self.entries_view(), k) is Some,
            |k: Seq<char>| first_entry(self.entries_view(), k)->0,
        )
    }
}

impl RegisterTable {
    /// The id registered for `name`, if any.
    pub fn get(&self, name: &str) -> (r: Option<u64>)
        ensures
            r == (if self@.contains_key(name@) {
                Some(self@[name@])
            } else {
                None
            }),
    {
        let key = name.to_owned();
        let mut i: usize = 0;
        assert(self.entries_view().subrange(0, self.entries@.len() as int) =~= self.entries_view());
        while i < self.entries.len()
            invariant
                i <= self.entries@.len(),
                key@ == name@,
                first_entry(self.entries_view(), name@) == first_entry(
                    self.entries_view().subrange(i as int, self.entries@.len() as int),
                    name@,
                ),
            decreases self.entries@.len() - i,
        {
            let ghost rest = self.entries_view().subrange(i as int, self.entries@.len() as int);
            assert(rest.drop_first() =~= self.entries_view().subrange(
                i + 1,
                self.entries@.len() as int,
            ));
            if self.entries[i].0 == key {
                return Some(self.entries[i].1);
            }
            i = i + 1;
        }
        None
    }
}

/// The one-character string of the decimal digit `d`.
fn digit_str(d: u64) -> (s: &'static str)
    requires
        d < 10,
    ensures
        s@ == seq![digit_char(d as nat)],
{
    proof {
        reveal_strlit("0");
        reveal_strlit("1");
        reveal_strlit("2");
        reveal_strlit("3");
        reveal_strlit("4");
        reveal_strlit("5");
        reveal_strlit("6");
        reveal_strlit("7");
        reveal_strlit("8");
        reveal_strlit("9");
    }
    let s = if d == 0 {
        "0"
    } else if d == 1 {
        "1"
    } else if d == 2 {
        "2"
    } else if d == 3 {
        "3"
    } else if d == 4 {
        "4"
    } else if d == 5 {
        "5"
    } else if d == 6 {
        "6"
    } else if d == 7 {
        "7"
    } else if d == 8 {
        "8"
    } else {
        "9"
    };
    assert(s@ =~= seq![digit_char(d as nat)]);
    s
}

/// Appends the shortest decimal spelling of `n` to `s`.
fn push_decimal(s: &mut String, n: u64)
    ensures
        final(s)@ == old(s)@ + decimal_chars(n as nat),
    decreases n,
{
    if n >= 10 {
        push_decimal(s, n / 10);
    }
    s.append(digit_str(n % 10));
    proof {
        if n >= 10 {
            assert(old(s)@ + decimal_chars(n as nat) =~= old(s)@ + decimal_chars((n / 10) as nat)
                + seq![digit_char((n % 10) as nat)]);
        } else {
            assert(n % 10 == n);
            assert(old(s)@ + decimal_chars(n as nat) =~= old(s)@ + seq![digit_char((n % 10) as nat)]);
        }
    }
}

/// The name of the general-purpose register `x<i>`.
fn x_reg_name(i: u64) -> (r: String)
    ensures
        r@ == seq!['x'] + decimal_chars(i as nat),
{
    let mut name = "x".to_owned();
    proof {
        reveal_strlit("x");
        assert(name@ =~= seq!['x']);
    }
    push_decimal(&mut name, i);
    name
}

/// The decimal spelling of `n` reads back as `n`.
pub proof fn lemma_decimal_chars_value(n: nat)
    ensures
        decimal_chars(n).len() > 0,
        all_decimal_digits(decimal_chars(n)),
        digits_value(decimal_chars(n)) == n,
        decimal_chars(n)[0] != '+',
    decreases n,
{
    assert(digit_value(digit_char(n % 10)) == n % 10);
    assert(is_decimal_digit(digit_char(n % 10)));
    if n < 10 {
        let s = decimal_chars(n);
        assert(s.drop_last() =~= Seq::<char>::empty());
        assert(digits_value(s.drop_last()) == 0);
        assert(s.last() == digit_char(n % 10));
        assert(digits_value(s) == digit_value(s.last()));
    } else {
        lemma_decimal_chars_value(n / 10);
        let s = decimal_chars(n);
        assert(s.drop_last() =~= decimal_chars(n / 10));
        assert(s.last() == digit_char(n % 10));
        assert(digits_value(s) == digits_value(decimal_chars(n / 10)) * 10 + n % 10);
        assert forall|i: int| 0 <= i < s.len() implies is_decimal_digit(#[trigger] s[i]) by {
            if i < s.len() - 1 {
                assert(s[i] == decimal_chars(n / 10)[i]);
            }
        }
    }
}

/// Every entry whose id is the one its name denotes makes the first-entry
/// lookup agree with the name's id wherever the name occurs.
proof fn lemma_first_entry_of_consistent(entries: Seq<(Seq<char>, u64)>, k: Seq<char>)
    requires
        forall|i: int| 0 <= i < entries.len() ==> core_reg_spec(#[trigger] entries[i].0) == Ok::<
            u64,
            RegError,
        >(entries[i].1),
    ensures
        first_entry(entries, k) == (if exists|i: int| 0 <= i < entries.len() && #[trigger] entries[i].0 == k {
            Some(core_reg_spec(k)->Ok_0)
        } else {
            None
        }),
    decreases entries.len(),
{
    if entries.len() > 0 {
        let rest = entries.drop_first();
        assert forall|i: int| 0 <= i < rest.len() implies core_reg_spec(#[trigger] rest[i].0) == Ok::<u64, RegError>(rest[i].1) by {
            assert(rest[i] == entries[i + 1]);
        }
        lemma_first_entry_of_consistent(rest, k);
        if entries[0].0 != k {
            if exists|i: int| 0 <= i < entries.len() && #[trigger] entries[i].0 == k {
                let i = choose|i: int| 0 <= i < entries.len() && #[trigger] entries[i].0 == k;
                assert(rest[i - 1].0 == k);
            }
            if exists|i: int| 0 <= i < rest.len() && #[trigger] rest[i].0 == k {
                let i = choose|i: int| 0 <= i < rest.len() && #[trigger] rest[i].0 == k;
                assert(entries[i + 1].0 == k);
            }
        }
    }
}

/// Builds the table of the core registers `x0`..`x29`, `sp`, `pc` and
/// `pstate`, each mapped to its KVM id.
pub fn load_regs_hash() -> (r: Result<RegisterTable, RegError>)
    ensures
        r is Ok,
        forall|k: Seq<char>| #[trigger]
            r->Ok_0@.contains_key(k) <==> is_table_reg_name(k),
        forall|k: Seq<char>|
            is_table_reg_name(k) ==> core_reg_spec(k) == Ok::<u64, RegError>(#[trigger] r->Ok_0@[k]),
{
    let mut regs: Vec<String> = Vec::new();
    let mut x: u64 = 0;
    while x < 30
        invariant
            x <= 30,
            regs@.len() == x,
            forall|i: int| 0 <= i < x ==> #[trigger] regs@[i]@ == seq!['x'] + decimal_chars(i as nat),
        decreases 30 - x,
    {
        regs.push(x_reg_name(x));
        x = x + 1;
    }
    regs.push("sp".to_owned());
    regs.push("pc".to_owned());
    regs.push("pstate".to_owned());
    proof {
        reveal_strlit("sp");
        reveal_strlit("pc");
        reveal_strlit("pstate");
        assert(regs@[30]@ =~= seq!['s', 'p']);
        assert(regs@[31]@ =~= seq!['p', 'c']);
        assert(regs@[32]@ =~= seq!['p', 's', 't', 'a', 't', 'e']);
    }
    let mut entries: Vec<(String, u64)> = Vec::new();
    let mut j: usize = 0;
    while j < regs.len()
        invariant
            j <= regs@.len(),
            regs@.len() == 33,
            forall|i: int| 0 <= i < 30 ==> #[trigger] regs@[i]@ == seq!['x'] + decimal_chars(i as nat),
            regs@[30]@ == seq!['s', 'p'],
            regs@[31]@ == seq!['p', 'c'],
            regs@[32]@ == seq!['p', 's', 't', 'a', 't', 'e'],
            entries@.len() == j,
            forall|i: int| 0 <= i < j ==> (#[trigger] entries@[i]).0@ == regs@[i]@,
            forall|i: int| 0 <= i < j ==> core_reg_spec((#[trigger] entries@[i]).0@) == Ok::<u64, RegError>(entries@[i].1),
        decreases regs@.len() - j,
    {
        let each = regs[j].clone();
        proof {
            if j < 30 {
                lemma_decimal_chars_value(j as nat);
                assert((seq!['x'] + decimal_chars(j as nat)).drop_first() =~= decimal_chars(j as nat));
            }
        }
        let id = aarch64_core_reg(each.as_str());
        match id {
            Ok(id) => {
                entries.push((each, id));
            },
            Err(e) => {
                return Err(e);
            },
        }
        j = j + 1;
    }
    let table = RegisterTable { entries };
    proof {
        let ev = table.entries_view();
        assert forall|i: int| 0 <= i < ev.len() implies core_reg_spec(#[trigger] ev[i].0) == Ok::<u64, RegError>(ev[i].1) by {
            assert(ev[i] == (entries@[i].0@, entries@[i].1));
        }
        assert forall|k: Seq<char>| #[trigger] table@.contains_key(k) <==> is_table_reg_name(k) by {
            lemma_first_entry_of_consistent(ev, k);
            if is_table_reg_name(k) {
                if exists|i: nat| i < 30 && k == seq!['x'] + #[trigger] decimal_chars(i) {
                    let i = choose|i: nat| i < 30 && k == seq!['x'] + #[trigger] decimal_chars(i);
                    assert(ev[i as int].0 == k);
                } else if k == seq!['s', 'p'] {
                    assert(ev[30].0 == k);
                } else if k == seq!['p', 'c'] {
                    assert(ev[31].0 == k);
                } else {
                    assert(ev[32].0 == k);
                }
            }
            if exists|i: int| 0 <= i < ev.len() && #[trigger] ev[i].0 == k {
                let i = choose|i: int| 0 <= i < ev.len() && #[trigger] ev[i].0 == k;
                assert(ev[i] == (entries@[i].0@, entries@[i].1));
                if i < 30 {
                    assert(k == seq!['x'] + decimal_chars(i as nat));
                }
            }
        }
        assert forall|k: Seq<char>| is_table_reg_name(k) implies core_reg_spec(k) == Ok::<u64, RegError>(#[trigger] table@[k]) by {
            lemma_first_entry_of_consistent(ev, k);
            assert(table@.contains_key(k));
        }
    }
    Ok(table)
}


/// Below bit 20, `CORE_REG_BASE` has no bit set, so or-ing a small index
/// into it is adding.
proof fn lemma_base_or_small(v: u64)
    requires
        v < 0x10_0000,
    ensures
        CORE_REG_BASE | v == CORE_REG_BASE + v,
{
    assert(v < 0x10_0000 ==> (0x6030_0000_0010_0000u64 | v) == 0x6030_0000_0010_0000u64 + v)
        by (bit_vector);
}

/// The id of `x<i>`.
proof fn lemma_x_reg_id(i: nat)
    requires
        i < 30,
    ensures
        core_reg_spec(seq!['x'] + decimal_chars(i)) == Ok::<u64, RegError>(
            (CORE_REG_BASE + 2 * i) as u64,
        ),
{
    lemma_decimal_chars_value(i);
    assert((seq!['x'] + decimal_chars(i)).drop_first() =~= decimal_chars(i));
    lemma_base_or_small((2 * i) as u64);
}

/// No two names in the register table share a KVM register id.
pub proof fn lemma_table_reg_ids_distinct(a: Seq<char>, b: Seq<char>)
    requires
        is_table_reg_name(a),
        is_table_reg_name(b),
        a != b,
    ensures
        core_reg_spec(a) is Ok,
        core_reg_spec(b) is Ok,
        core_reg_spec(a)->Ok_0 != core_reg_spec(b)->Ok_0,
{
    lemma_base_or_small(62);
    lemma_base_or_small(64);
    lemma_base_or_small(66);
    if exists|i: nat| i < 30 && a == seq!['x'] + #[trigger] decimal_chars(i) {
        let i = choose|i: nat| i < 30 && a == seq!['x'] + #[trigger] decimal_chars(i);
        lemma_x_reg_id(i);
    }
    if exists|j: nat| j < 30 && b == seq!['x'] + #[trigger] decimal_chars(j) {
        let j = choose|j: nat| j < 30 && b == seq!['x'] + #[trigger] decimal_chars(j);
        lemma_x_reg_id(j);
    }
}

} // verus!

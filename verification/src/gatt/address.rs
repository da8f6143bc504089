//! The addresses under which the host stack sees the attributes of a tree.

use vstd::prelude::*;
use vstd::string::StringExecFns;

verus! {

/// The place of an attribute in a tree: the index of its service, and below
/// that of its characteristic and of its descriptor, each counted from zero
/// in the order in which the siblings were added.
#[derive(Clone, Copy, Debug, PartialEq, Eq, Structural)]
pub enum Address {
    Service(usize),
    Characteristic(usize, usize),
    Descriptor(usize, usize, usize),
}

/// The character of one decimal digit.
pub open spec fn digit(d: nat) -> char {
    if d == 0 {
        '0'
    } else if d == 1 {
        '1'
    } else if d == 2 {
        '2'
    } else if d == 3 {
        '3'
    } else if d == 4 {
        '4'
    } else if d == 5 {
        '5'
    } else if d == 6 {
        '6'
    } else if d == 7 {
        '7'
    } else if d == 8 {
        '8'
    } else {
        '9'
    }
}

/// A number in decimal, without a sign and without leading zeros.
pub open spec fn decimal(n: nat) -> Seq<char>
    decreases n,
{
    if n < 10 {
        seq![digit(n)]
    } else {
        decimal(n / 10).push(digit(n % 10))
    }
}

/// The text `/service`.
pub open spec fn service_word() -> Seq<char> {
    seq!['/', 's', 'e', 'r', 'v', 'i', 'c', 'e']
}

/// The text `/char`.
pub open spec fn characteristic_word() -> Seq<char> {
    seq!['/', 'c', 'h', 'a', 'r']
}

/// The text `/desc`.
pub open spec fn descriptor_word() -> Seq<char> {
    seq!['/', 'd', 'e', 's', 'c']
}

/// Whether `c` is a decimal digit.
pub open spec fn is_digit(c: char) -> bool {
    c == '0' || c == '1' || c == '2' || c == '3' || c == '4' || c == '5' || c == '6' || c == '7'
        || c == '8' || c == '9'
}

/// Whether a number that is written in front of `rest` can be told from it:
/// `rest` is empty or does not begin with a digit.
pub open spec fn ends_number(rest: Seq<char>) -> bool {
    rest.len() == 0 || !is_digit(rest[0])
}

/// A decimal number is made of one or more digits.
pub proof fn lemma_decimal_digits(n: nat)
    ensures
        decimal(n).len() >= 1,
        forall|i: int| 0 <= i < decimal(n).len() ==> is_digit(#[trigger] decimal(n)[i]),
    decreases n,
{
    if n >= 10 {
        lemma_decimal_digits(n / 10);
    }
}

/// Two numbers with the same decimal text are the same number.
pub proof fn lemma_decimal_injective(a: nat, b: nat)
    requires
        decimal(a) == decimal(b),
    ensures
        a == b,
    decreases a,
{
    lemma_decimal_digits(a / 10);
    lemma_decimal_digits(b / 10);
    if a < 10 && b < 10 {
        assert(decimal(a)[0] == digit(a));
        assert(decimal(b)[0] == digit(b));
    } else if a >= 10 && b >= 10 {
        let x = decimal(a / 10);
        let y = decimal(b / 10);
        assert(decimal(a) == x.push(digit(a % 10)));
        assert(decimal(b) == y.push(digit(b % 10)));
        assert(x.push(digit(a % 10)).drop_last() =~= x);
        assert(y.push(digit(b % 10)).drop_last() =~= y);
        assert(x.push(digit(a % 10)).last() == digit(a % 10));
        assert(y.push(digit(b % 10)).last() == digit(b % 10));
        lemma_decimal_injective(a / 10, b / 10);
        assert(a % 10 == b % 10);
    } else if a >= 10 {
        assert(decimal(a) == decimal(a / 10).push(digit(a % 10)));
        assert(decimal(b).len() == 1);
    } else {
        assert(decimal(b) == decimal(b / 10).push(digit(b % 10)));
        assert(decimal(a).len() == 1);
    }
}

/// A number written in front of a text that it can be told from is read
/// back in one way only.
pub proof fn lemma_number_then_rest(a: nat, x: Seq<char>, b: nat, y: Seq<char>)
    requires
        decimal(a) + x == decimal(b) + y,
        ends_number(x),
        ends_number(y),
    ensures
        a == b,
        x == y,
{
    let da = decimal(a);
    let db = decimal(b);
    let left = da + x;
    let right = db + y;
    lemma_decimal_digits(a);
    lemma_decimal_digits(b);
    assert(left.len() == right.len());
    if da.len() < db.len() {
        assert(x.len() > 0);
        assert(left[da.len() as int] == x[0]);
        assert(right[da.len() as int] == db[da.len() as int]);
        assert(false);
    }
    if db.len() < da.len() {
        assert(y.len() > 0);
        assert(right[db.len() as int] == y[0]);
        assert(left[db.len() as int] == da[db.len() as int]);
        assert(false);
    }
    assert forall|i: int| 0 <= i < da.len() implies da[i] == db[i] by {
        assert(left[i] == da[i]);
        assert(right[i] == db[i]);
    }
    assert(da =~= db);
    lemma_decimal_injective(a, b);
    assert forall|i: int| 0 <= i < x.len() implies x[i] == y[i] by {
        assert(left[da.len() + i] == x[i]);
        assert(right[db.len() + i] == y[i]);
    }
    assert(x =~= y);
}

/// The text that stands for one level of an address: the level's word, the
/// index, and what follows.
pub open spec fn level(word: Seq<char>, index: nat, rest: Seq<char>) -> Seq<char> {
    word + (decimal(index) + rest)
}

/// One level of an address is read back in one way only.
pub proof fn lemma_level_injective(
    word: Seq<char>,
    a: nat,
    x: Seq<char>,
    b: nat,
    y: Seq<char>,
)
    requires
        level(word, a, x) == level(word, b, y),
        ends_number(x),
        ends_number(y),
    ensures
        a == b,
        x == y,
{
    let left = decimal(a) + x;
    let right = decimal(b) + y;
    assert(level(word, a, x).len() == word.len() + left.len());
    assert(level(word, b, y).len() == word.len() + right.len());
    assert forall|i: int| 0 <= i < left.len() implies left[i] == right[i] by {
        assert(level(word, a, x)[word.len() + i] == left[i]);
        assert(level(word, b, y)[word.len() + i] == right[i]);
    }
    assert(left =~= right);
    lemma_number_then_rest(a, x, b, y);
}

impl Address {
    /// What is written behind the base path for this address.
    pub open spec fn suffix(self) -> Seq<char> {
        match self {
            Address::Service(n) => level(service_word(), n as nat, Seq::empty()),
            Address::Characteristic(n, m) => level(
                service_word(),
                n as nat,
                level(characteristic_word(), m as nat, Seq::empty()),
            ),
            Address::Descriptor(n, m, k) => level(
                service_word(),
                n as nat,
                level(
                    characteristic_word(),
                    m as nat,
                    level(descriptor_word(), k as nat, Seq::empty()),
                ),
            ),
        }
    }

    /// The path is the base followed by the suffix.
    pub proof fn lemma_path_is_base_and_suffix(self, base: Seq<char>)
        ensures
            self.path_text(base) == base + self.suffix(),
    {
        assert(self.path_text(base) =~= base + self.suffix());
    }

    /// Two addresses with the same path below one base are the same
    /// address: no two attributes of a tree are seen under one path.
    pub proof fn lemma_path_injective(a: Address, b: Address, base: Seq<char>)
        requires
            a.path_text(base) == b.path_text(base),
        ensures
            a == b,
    {
        a.lemma_path_is_base_and_suffix(base);
        b.lemma_path_is_base_and_suffix(base);
        let x = a.suffix();
        let y = b.suffix();
        assert((base + x).len() == (base + y).len());
        assert forall|i: int| 0 <= i < x.len() implies x[i] == y[i] by {
            assert((base + x)[base.len() + i] == x[i]);
            assert((base + y)[base.len() + i] == y[i]);
        }
        assert(x =~= y);
        let empty = Seq::<char>::empty();
        let (n1, r1) = a.below_service();
        let (n2, r2) = b.below_service();
        lemma_level_injective(service_word(), n1, r1, n2, r2);
        match (a, b) {
            (Address::Service(_), Address::Service(_)) => {},
            (Address::Service(_), _) => {
                assert(r2.len() > 0);
            },
            (_, Address::Service(_)) => {
                assert(r1.len() > 0);
            },
            _ => {
                let (m1, q1) = a.below_characteristic();
                let (m2, q2) = b.below_characteristic();
                lemma_level_injective(characteristic_word(), m1, q1, m2, q2);
                match (a, b) {
                    (Address::Characteristic(_, _), Address::Characteristic(_, _)) => {},
                    (Address::Characteristic(_, _), _) => {
                        assert(q2.len() > 0);
                    },
                    (_, Address::Characteristic(_, _)) => {
                        assert(q1.len() > 0);
                    },
                    (Address::Descriptor(_, _, k1), Address::Descriptor(_, _, k2)) => {
                        lemma_level_injective(
                            descriptor_word(),
                            k1 as nat,
                            empty,
                            k2 as nat,
                            empty,
                        );
                    },
                    _ => {},
                }
            },
        }
    }

    /// The index of the service and the text behind it in the suffix.
    pub open spec fn below_service(self) -> (nat, Seq<char>) {
        match self {
            Address::Service(n) => (n as nat, Seq::empty()),
            Address::Characteristic(n, m) => (
                n as nat,
                level(characteristic_word(), m as nat, Seq::empty()),
            ),
            Address::Descriptor(n, m, k) => (
                n as nat,
                level(
                    characteristic_word(),
                    m as nat,
                    level(descriptor_word(), k as nat, Seq::empty()),
                ),
            ),
        }
    }

    /// The index of the characteristic and the text behind it in the
    /// suffix; for a service, nothing.
    pub open spec fn below_characteristic(self) -> (nat, Seq<char>) {
        match self {
            Address::Service(n) => (0, Seq::empty()),
            Address::Characteristic(n, m) => (m as nat, Seq::empty()),
            Address::Descriptor(n, m, k) => (
                m as nat,
                level(descriptor_word(), k as nat, Seq::empty()),
            ),
        }
    }

    /// The address of the service above the attribute.
    pub open spec fn spec_service(self) -> usize {
        match self {
            Address::Service(n) => n,
            Address::Characteristic(n, _) => n,
            Address::Descriptor(n, _, _) => n,
        }
    }

    /// Whether the address is that of the characteristic `m` of the
    /// service `n`, or of one of its descriptors.
    pub open spec fn within(self, n: int, m: int) -> bool {
        match self {
            Address::Service(_) => false,
            Address::Characteristic(s, c) => s == n && c == m,
            Address::Descriptor(s, c, _) => s == n && c == m,
        }
    }

    /// The address of the attribute above this one, if it is not a service.
    pub open spec fn spec_parent(self) -> Option<Address> {
        match self {
            Address::Service(_) => None,
            Address::Characteristic(n, _) => Some(Address::Service(n)),
            Address::Descriptor(n, m, _) => Some(Address::Characteristic(n, m)),
        }
    }

    /// The path of the attribute below `base`: `<base>/service<N>`,
    /// `<base>/service<N>/char<M>` or `<base>/service<N>/char<M>/desc<K>`.
    pub open spec fn path_text(self, base: Seq<char>) -> Seq<char> {
        match self {
            Address::Service(n) => base + service_word() + decimal(n as nat),
            Address::Characteristic(n, m) => base + service_word() + decimal(n as nat)
                + characteristic_word() + decimal(m as nat),
            Address::Descriptor(n, m, k) => base + service_word() + decimal(n as nat)
                + characteristic_word() + decimal(m as nat) + descriptor_word() + decimal(
                k as nat,
            ),
        }
    }

    #[verifier::when_used_as_spec(spec_parent)]
    pub fn parent(self) -> (parent: Option<Address>)
        ensures
            parent == self.spec_parent(),
    {
        match self {
            Address::Service(_) => None,
            Address::Characteristic(n, _) => Some(Address::Service(n)),
            Address::Descriptor(n, m, _) => Some(Address::Characteristic(n, m)),
        }
    }

    /// The path of the attribute below `base`.
    pub fn path(self, base: &str) -> (path: String)
        ensures
            path@ == self.path_text(base@),
    {
        let mut path = String::from_str(base);
        proof {
            reveal_strlit("/service");
            reveal_strlit("/char");
            reveal_strlit("/desc");
            assert("/service"@ =~= service_word());
            assert("/char"@ =~= characteristic_word());
            assert("/desc"@ =~= descriptor_word());
        }
        match self {
            Address::Service(n) => {
                path.append("/service");
                append_decimal(&mut path, n);
            },
            Address::Characteristic(n, m) => {
                path.append("/service");
                append_decimal(&mut path, n);
                path.append("/char");
                append_decimal(&mut path, m);
            },
            Address::Descriptor(n, m, k) => {
                path.append("/service");
                append_decimal(&mut path, n);
                path.append("/char");
                append_decimal(&mut path, m);
                path.append("/desc");
                append_decimal(&mut path, k);
            },
        }
        path
    }
}

/// The text of one decimal digit.
fn digit_text(d: usize) -> (text: &'static str)
    requires
        d < 10,
    ensures
        text@ == seq![digit(d as nat)],
{
    proof {
        reveal_strlit("0");
        reveal_strlit("1");
        reveal_strlit("2");
        reveal_strlit("3");
        reveal_strlit("4");
        reveal_strlit("5");
        reveal_strlit("6");
        reveal_strlit("7");
        reveal_strlit("8");
        reveal_strlit("9");
    }
    let text = if d == 0 {
        "0"
    } else if d == 1 {
        "1"
    } else if d == 2 {
        "2"
    } else if d == 3 {
        "3"
    } else if d == 4 {
        "4"
    } else if d == 5 {
        "5"
    } else if d == 6 {
        "6"
    } else if d == 7 {
        "7"
    } else if d == 8 {
        "8"
    } else {
        "9"
    };
    assert(text@ =~= seq![digit(d as nat)]);
    text
}

/// Writes `n` in decimal at the end of `text`.
pub fn append_decimal(text: &mut String, n: usize)
    ensures
        final(text)@ == old(text)@ + decimal(n as nat),
    decreases n,
{
    if n >= 10 {
        append_decimal(text, n / 10);
    }
    text.append(digit_text(n % 10));
    assert(text@ =~= old(text)@ + decimal(n as nat));
}

} // verus!

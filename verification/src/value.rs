use vstd::prelude::*;

verus! {

broadcast use vstd::std_specs::vec::axiom_vec_index_decreases;

/// The compiled-function handle stored in `Value::Function` and in the
/// function table: the ordered parameter names and the entry offset of the
/// function's body inside the shared instruction stream.
#[derive(Debug, Clone, PartialEq)]
pub struct VMFunction {
    pub params: Vec<String>,
    pub entry: usize,
}

/// The tagged runtime value shared by every component.
///
/// `Int64` is the normalized numeric type: the compiler interns every numeric
/// literal as `Int64`, and the arithmetic instructions handle `Int64` pairs
/// only.  `Int32` exists as the default of a bare variable declaration and,
/// like every non-`Int64` numeric, is rejected by arithmetic with a
/// `TypeMismatch` fault.  `Class` and `Object` are identity-carrying values
/// owned by an external object model; the machine never constructs them but
/// passes them through the stack, equality and ordering without faulting.
#[derive(Debug, PartialEq)]
pub enum Value {
    Int32(i32),
    Int64(i64),
    Str(String),
    Boolean(bool),
    Function(String, VMFunction),
    NativeFunction(String),
    Class(String),
    Object(String, usize),
    Dict(Vec<(String, Value)>),
    Array(Vec<Value>),
    Null,
}

/// Mathematical twin of `VMFunction`: parameter names as character
/// sequences, the entry offset as an unbounded integer.
#[verifier::ext_equal]
pub struct AbsFn {
    pub params: Seq<Seq<char>>,
    pub entry: int,
}

/// Mathematical twin of `Value`, used by every contract: strings become
/// character sequences, integers become unbounded, and the containers become
/// sequences of abstract values.
#[verifier::ext_equal]
pub enum AbsValue {
    Int32(int),
    Int64(int),
    Str(Seq<char>),
    Boolean(bool),
    Function(Seq<char>, AbsFn),
    NativeFunction(Seq<char>),
    Class(Seq<char>),
    Object(Seq<char>, int),
    Dict(Seq<(Seq<char>, AbsValue)>),
    Array(Seq<AbsValue>),
    Null,
}

impl VMFunction {
    /// The abstraction of this handle.
    pub open spec fn abs(self) -> AbsFn {
        AbsFn {
            params: Seq::new(self.params@.len(), |i: int| self.params@[i]@),
            entry: self.entry as int,
        }
    }
}

impl Value {
    /// The abstraction of this value.
    pub open spec fn abs(self) -> AbsValue
        decreases self, 0int,
    {
        match self {
            Value::Int32(n) => AbsValue::Int32(n as int),
            Value::Int64(n) => AbsValue::Int64(n as int),
            Value::Str(s) => AbsValue::Str(s@),
            Value::Boolean(b) => AbsValue::Boolean(b),
            Value::Function(n, f) => AbsValue::Function(n@, f.abs()),
            Value::NativeFunction(n) => AbsValue::NativeFunction(n@),
            Value::Class(n) => AbsValue::Class(n@),
            Value::Object(n, i) => AbsValue::Object(n@, i as int),
            Value::Dict(pairs) => {
                proof {
                    assert(decreases_to!(self => pairs));
                    assert(decreases_to!(pairs => pairs@));
                }
                AbsValue::Dict(abs_pairs_from(pairs@, 0))
            },
            Value::Array(vs) => {
                proof {
                    assert(decreases_to!(self => vs));
                    assert(decreases_to!(vs => vs@));
                }
                AbsValue::Array(abs_list_from(vs@, 0))
            },
            Value::Null => AbsValue::Null,
        }
    }
}

/// The abstraction of the elements of `s` from index `i` on; the recursive
/// worker behind `Value::abs` for arrays.
pub open spec fn abs_list_from(s: Seq<Value>, i: int) -> Seq<AbsValue>
    decreases s, s.len() - i,
{
    if 0 <= i < s.len() {
        proof {
            assert(decreases_to!(s => s[i]));
        }
        seq![s[i].abs()] + abs_list_from(s, i + 1)
    } else {
        Seq::empty()
    }
}

/// The abstraction of the name/value pairs of `s` from index `i` on; the
/// recursive worker behind `Value::abs` for dictionaries.
pub open spec fn abs_pairs_from(s: Seq<(String, Value)>, i: int) -> Seq<(Seq<char>, AbsValue)>
    decreases s, s.len() - i,
{
    if 0 <= i < s.len() {
        proof {
            assert(decreases_to!(s => s[i]));
            assert(decreases_to!(s[i] => s[i].1));
        }
        seq![(s[i].0@, s[i].1.abs())] + abs_pairs_from(s, i + 1)
    } else {
        Seq::empty()
    }
}

impl DeepView for VMFunction {
    type V = AbsFn;

    open spec fn deep_view(&self) -> AbsFn {
        self.abs()
    }
}

impl DeepView for Value {
    type V = AbsValue;

    open spec fn deep_view(&self) -> AbsValue {
        self.abs()
    }
}

/// The abstraction of a sequence of values, element by element.
pub open spec fn abs_seq(s: Seq<Value>) -> Seq<AbsValue> {
    Seq::new(s.len(), |i: int| s[i].abs())
}

/// The abstraction of a sequence of name/value pairs, pair by pair.
pub open spec fn abs_pair_seq(s: Seq<(String, Value)>) -> Seq<(Seq<char>, AbsValue)> {
    Seq::new(s.len(), |i: int| (s[i].0@, s[i].1.abs()))
}

/// `abs_list_from(s, i)` lists exactly the abstractions of `s[i..]`.
pub proof fn lemma_abs_list_from(s: Seq<Value>, i: int)
    requires
        0 <= i <= s.len(),
    ensures
        abs_list_from(s, i) =~= abs_seq(s).skip(i),
    decreases s.len() - i,
{
    if i < s.len() {
        lemma_abs_list_from(s, i + 1);
    }
}

/// `abs_pairs_from(s, i)` lists exactly the abstractions of `s[i..]`.
pub proof fn lemma_abs_pairs_from(s: Seq<(String, Value)>, i: int)
    requires
        0 <= i <= s.len(),
    ensures
        abs_pairs_from(s, i) =~= abs_pair_seq(s).skip(i),
    decreases s.len() - i,
{
    if i < s.len() {
        lemma_abs_pairs_from(s, i + 1);
    }
}

/// The abstraction of an array value is the element-by-element abstraction
/// of its backing vector.
pub proof fn lemma_abs_array(v: Value)
    requires
        v is Array,
    ensures
        v.abs() == AbsValue::Array(abs_seq(v->Array_0@)),
{
    lemma_abs_list_from(v->Array_0@, 0);
    assert(abs_seq(v->Array_0@).skip(0) =~= abs_seq(v->Array_0@));
}

/// The abstraction of a dictionary value is the pair-by-pair abstraction of
/// its backing vector.
pub proof fn lemma_abs_dict(v: Value)
    requires
        v is Dict,
    ensures
        v.abs() == AbsValue::Dict(abs_pair_seq(v->Dict_0@)),
{
    lemma_abs_pairs_from(v->Dict_0@, 0);
    assert(abs_pair_seq(v->Dict_0@).skip(0) =~= abs_pair_seq(v->Dict_0@));
}

/// Truthiness: `Null` is false, a `Boolean` is its own value, and every
/// other variant — including zero numbers and the empty string — is true.
/// This rule decides conditional jumps, so it is part of the machine's
/// contract.
pub open spec fn truthy_spec(v: AbsValue) -> bool {
    match v {
        AbsValue::Boolean(b) => b,
        AbsValue::Null => false,
        _ => true,
    }
}

/// Language-level equality, defined only on primitive pairs of the same
/// variant (numbers, strings, booleans); every other pair is "not equal"
/// rather than a fault.
pub open spec fn val_eq(a: AbsValue, b: AbsValue) -> bool {
    match (a, b) {
        (AbsValue::Int32(x), AbsValue::Int32(y)) => x == y,
        (AbsValue::Int64(x), AbsValue::Int64(y)) => x == y,
        (AbsValue::Str(x), AbsValue::Str(y)) => x == y,
        (AbsValue::Boolean(x), AbsValue::Boolean(y)) => x == y,
        _ => false,
    }
}

/// The outcome of ordering two values.  Pairs outside the primitive
/// same-variant combinations are `Unordered`, which every comparison
/// instruction maps to `false`.
#[derive(Clone, Copy, Debug, PartialEq, Eq, Structural)]
pub enum OrderRel {
    Less,
    Equal,
    Greater,
    Unordered,
}

/// Ordering of two unbounded integers.
pub open spec fn int_order(x: int, y: int) -> OrderRel {
    if x < y {
        OrderRel::Less
    } else if x == y {
        OrderRel::Equal
    } else {
        OrderRel::Greater
    }
}

/// Lexicographic ordering of two character sequences by code point, the
/// order `str` comparison uses.
pub open spec fn lex_cmp(a: Seq<char>, b: Seq<char>) -> OrderRel
    decreases a.len(),
{
    if a.len() == 0 && b.len() == 0 {
        OrderRel::Equal
    } else if a.len() == 0 {
        OrderRel::Less
    } else if b.len() == 0 {
        OrderRel::Greater
    } else if (a[0] as u32) < (b[0] as u32) {
        OrderRel::Less
    } else if (a[0] as u32) > (b[0] as u32) {
        OrderRel::Greater
    } else {
        lex_cmp(a.skip(1), b.skip(1))
    }
}

/// Language-level ordering: defined only on primitive pairs of the same
/// variant; `false` orders below `true`.
pub open spec fn val_cmp(a: AbsValue, b: AbsValue) -> OrderRel {
    match (a, b) {
        (AbsValue::Int32(x), AbsValue::Int32(y)) => int_order(x, y),
        (AbsValue::Int64(x), AbsValue::Int64(y)) => int_order(x, y),
        (AbsValue::Str(x), AbsValue::Str(y)) => lex_cmp(x, y),
        (AbsValue::Boolean(x), AbsValue::Boolean(y)) => int_order(
            if x { 1int } else { 0int },
            if y { 1int } else { 0int },
        ),
        _ => OrderRel::Unordered,
    }
}

impl Value {
    /// Truthiness of this value; see `truthy_spec`.
    pub fn truthy(&self) -> (r: bool)
        ensures
            r == truthy_spec(self.abs()),
    {
        match self {
            Value::Boolean(b) => *b,
            Value::Null => false,
            _ => true,
        }
    }

    /// A structurally identical copy of this value.
    #[verifier::loop_isolation(false)]
    pub fn deep_clone(&self) -> (r: Value)
        ensures
            r.abs() == self.abs(),
        decreases self,
    {
        match self {
            Value::Int32(n) => Value::Int32(*n),
            Value::Int64(n) => Value::Int64(*n),
            Value::Str(s) => Value::Str(s.clone()),
            Value::Boolean(b) => Value::Boolean(*b),
            Value::Function(n, f) => {
                let g = VMFunction { params: clone_names(&f.params), entry: f.entry };
                let r = Value::Function(n.clone(), g);
                proof {
                    assert(r.abs() =~= self.abs());
                }
                r
            },
            Value::NativeFunction(n) => Value::NativeFunction(n.clone()),
            Value::Class(n) => Value::Class(n.clone()),
            Value::Object(n, i) => Value::Object(n.clone(), *i),
            Value::Dict(pairs) => {
                let mut out: Vec<(String, Value)> = Vec::new();
                let mut i: usize = 0;
                while i < pairs.len()
                    invariant
                        i <= pairs.len(),
                        out@.len() == i,
                        forall|j: int|
                            0 <= j < i ==> #[trigger] out@[j].0@ == pairs@[j].0@
                                && out@[j].1.abs() == pairs@[j].1.abs(),
                    decreases pairs.len() - i,
                {
                    proof {
                        assert(decreases_to!(*self => *pairs));
                        assert(decreases_to!(*pairs => pairs@));
                        assert(decreases_to!(pairs@ => pairs@[i as int]));
                        assert(decreases_to!(pairs@[i as int] => pairs@[i as int].1));
                    }
                    let name = pairs[i].0.clone();
                    let v = pairs[i].1.deep_clone();
                    out.push((name, v));
                    i = i + 1;
                }
                let r = Value::Dict(out);
                proof {
                    lemma_abs_dict(r);
                    lemma_abs_dict(*self);
                    assert(abs_pair_seq(out@) =~= abs_pair_seq(pairs@));
                }
                r
            },
            Value::Array(vs) => {
                let mut out: Vec<Value> = Vec::new();
                let mut i: usize = 0;
                while i < vs.len()
                    invariant
                        i <= vs.len(),
                        out@.len() == i,
                        forall|j: int| 0 <= j < i ==> #[trigger] out@[j].abs() == vs@[j].abs(),
                    decreases vs.len() - i,
                {
                    proof {
                        assert(decreases_to!(*self => *vs));
                        assert(decreases_to!(*vs => vs@));
                        assert(decreases_to!(vs@ => vs@[i as int]));
                    }
                    let v = vs[i].deep_clone();
                    out.push(v);
                    i = i + 1;
                }
                let r = Value::Array(out);
                proof {
                    lemma_abs_array(r);
                    lemma_abs_array(*self);
                    assert(abs_seq(out@) =~= abs_seq(vs@));
                }
                r
            },
            Value::Null => Value::Null,
        }
    }

    /// The normalized 64-bit numeric of this value: the numeric variants
    /// convert exactly, and every other variant is a `TypeMismatch` fault.
    pub fn to_num(&self) -> (r: Result<i64, crate::errors::VMError>)
        ensures
            r is Ok <==> (self.abs() is Int32 || self.abs() is Int64),
            r matches Ok(n) ==> ({
                ||| self.abs() == AbsValue::Int32(n as int)
                ||| self.abs() == AbsValue::Int64(n as int)
            }),
            r matches Err(e) ==> e.kind == crate::errors::VMErrorKind::TypeMismatch,
    {
        match self {
            Value::Int32(n) => Ok(*n as i64),
            Value::Int64(n) => Ok(*n),
            _ => Err(
                crate::errors::VMError::new(
                    crate::errors::VMErrorKind::TypeMismatch,
                    String::from_str("only numeric values convert to the 64-bit numeric"),
                ),
            ),
        }
    }

    /// Language-level equality of two values; see `val_eq`.
    pub fn value_eq(&self, other: &Value) -> (r: bool)
        ensures
            r == val_eq(self.abs(), other.abs()),
    {
        match (self, other) {
            (Value::Int32(x), Value::Int32(y)) => *x == *y,
            (Value::Int64(x), Value::Int64(y)) => *x == *y,
            (Value::Str(x), Value::Str(y)) => x.eq(y),
            (Value::Boolean(x), Value::Boolean(y)) => *x == *y,
            _ => false,
        }
    }

    /// Language-level ordering of two values; see `val_cmp`.
    pub fn value_cmp(&self, other: &Value) -> (r: OrderRel)
        ensures
            r == val_cmp(self.abs(), other.abs()),
    {
        match (self, other) {
            (Value::Int32(x), Value::Int32(y)) => {
                if *x < *y {
                    OrderRel::Less
                } else if *x == *y {
                    OrderRel::Equal
                } else {
                    OrderRel::Greater
                }
            },
            (Value::Int64(x), Value::Int64(y)) => {
                if *x < *y {
                    OrderRel::Less
                } else if *x == *y {
                    OrderRel::Equal
                } else {
                    OrderRel::Greater
                }
            },
            (Value::Str(x), Value::Str(y)) => str_cmp(x.as_str(), y.as_str()),
            (Value::Boolean(x), Value::Boolean(y)) => {
                if !*x && *y {
                    OrderRel::Less
                } else if *x == *y {
                    OrderRel::Equal
                } else {
                    OrderRel::Greater
                }
            },
            _ => OrderRel::Unordered,
        }
    }
}

/// Copies a list of names, preserving each name's characters.
pub fn clone_names(names: &Vec<String>) -> (r: Vec<String>)
    ensures
        r@.len() == names@.len(),
        forall|i: int| 0 <= i < names@.len() ==> #[trigger] r@[i]@ == names@[i]@,
{
    let mut out: Vec<String> = Vec::new();
    let mut i: usize = 0;
    while i < names.len()
        invariant
            i <= names.len(),
            out@.len() == i,
            forall|j: int| 0 <= j < i ==> #[trigger] out@[j]@ == names@[j]@,
        decreases names.len() - i,
    {
        out.push(names[i].clone());
        i = i + 1;
    }
    out
}

/// The decimal digit character for `d`, which must lie in `0 ..= 9`.
pub open spec fn digit_char(d: int) -> char {
    if d == 0 {
        '0'
    } else if d == 1 {
        '1'
    } else if d == 2 {
        '2'
    } else if d == 3 {
        '3'
    } else if d == 4 {
        '4'
    } else if d == 5 {
        '5'
    } else if d == 6 {
        '6'
    } else if d == 7 {
        '7'
    } else if d == 8 {
        '8'
    } else {
        '9'
    }
}

/// The decimal digits of `n`, most significant first, with no leading zero
/// except for `n == 0` itself.
pub open spec fn dec_digits(n: nat) -> Seq<char>
    decreases n,
{
    if n < 10 {
        seq![digit_char(n as int)]
    } else {
        dec_digits(n / 10) + seq![digit_char((n % 10) as int)]
    }
}

/// The decimal text of an integer: a leading minus sign for negatives, then
/// the digits of the magnitude.
pub open spec fn int_text(n: int) -> Seq<char> {
    if n < 0 {
        seq!['-'] + dec_digits((-n) as nat)
    } else {
        dec_digits(n as nat)
    }
}

/// The display text of a value, used by string concatenation and by the
/// `print` native at the host boundary: strings are themselves, numbers
/// render in decimal, booleans as `true`/`false`, absence as `None`, and the
/// compound variants as short tags.
pub open spec fn text_of(v: AbsValue) -> Seq<char> {
    match v {
        AbsValue::Str(s) => s,
        AbsValue::Int32(n) => int_text(n),
        AbsValue::Int64(n) => int_text(n),
        AbsValue::Boolean(b) => if b {
            "true"@
        } else {
            "false"@
        },
        AbsValue::Null => "None"@,
        AbsValue::Function(n, _) => "Function <"@ + n + ">"@,
        AbsValue::NativeFunction(n) => "Native function <"@ + n + ">"@,
        AbsValue::Class(n) => "Class <"@ + n + ">"@,
        AbsValue::Object(n, _) => "Object of class <"@ + n + ">"@,
        AbsValue::Dict(_) => "<dict>"@,
        AbsValue::Array(_) => "<array>"@,
    }
}

/// The one-character string for a decimal digit value.
fn digit_str(d: u64) -> (r: &'static str)
    requires
        d < 10,
    ensures
        r@ == seq![digit_char(d as int)],
{
    let s: &'static str = match d {
        0 => "0",
        1 => "1",
        2 => "2",
        3 => "3",
        4 => "4",
        5 => "5",
        6 => "6",
        7 => "7",
        8 => "8",
        _ => "9",
    };
    proof {
        reveal_strlit("0");
        reveal_strlit("1");
        reveal_strlit("2");
        reveal_strlit("3");
        reveal_strlit("4");
        reveal_strlit("5");
        reveal_strlit("6");
        reveal_strlit("7");
        reveal_strlit("8");
        reveal_strlit("9");
        assert(s@ =~= seq![digit_char(d as int)]);
    }
    s
}

/// Appends the decimal digits of `n` to `out`.
fn push_decimal(out: &mut String, n: u64)
    ensures
        final(out)@ == old(out)@ + dec_digits(n as nat),
    decreases n,
{
    if n >= 10 {
        push_decimal(out, n / 10);
        let d = digit_str(n % 10);
        out.append(d);
        proof {
            assert(old(out)@ + dec_digits(n as nat) =~= (old(out)@ + dec_digits((n / 10) as nat))
                + seq![digit_char((n % 10) as int)]);
        }
    } else {
        let d = digit_str(n);
        out.append(d);
    }
}

/// The decimal text of an unsigned 64-bit value.
pub fn u64_text(n: u64) -> (r: String)
    ensures
        r@ == dec_digits(n as nat),
{
    let mut s = String::new();
    push_decimal(&mut s, n);
    proof {
        assert(Seq::<char>::empty() + dec_digits(n as nat) =~= dec_digits(n as nat));
    }
    s
}

/// The decimal text of a signed 64-bit value; see `int_text`.
pub fn i64_text(n: i64) -> (r: String)
    ensures
        r@ == int_text(n as int),
{
    if n >= 0 {
        u64_text(n as u64)
    } else {
        let mag: u64 = if n == i64::MIN {
            9223372036854775808u64
        } else {
            (-n) as u64
        };
        let mut s = String::from_str("-");
        push_decimal(&mut s, mag);
        proof {
            reveal_strlit("-");
            assert("-"@ =~= seq!['-']);
            assert(mag as nat == (-(n as int)) as nat);
            assert(s@ =~= int_text(n as int));
        }
        s
    }
}

/// Joins a prefix, a name and a suffix into one string.
fn wrap_name(pre: &str, name: &String, post: &str) -> (r: String)
    ensures
        r@ == pre@ + name@ + post@,
{
    let mut s = String::from_str(pre);
    s.append(name.as_str());
    s.append(post);
    proof {
        assert((pre@ + name@) + post@ =~= pre@ + name@ + post@);
    }
    s
}

impl Value {
    /// The display text of this value; see `text_of`.
    pub fn to_text(&self) -> (r: String)
        ensures
            r@ == text_of(self.abs()),
    {
        match self {
            Value::Str(s) => s.clone(),
            Value::Int32(n) => i64_text(*n as i64),
            Value::Int64(n) => i64_text(*n),
            Value::Boolean(b) => {
                if *b {
                    String::from_str("true")
                } else {
                    String::from_str("false")
                }
            },
            Value::Null => String::from_str("None"),
            Value::Function(n, _) => wrap_name("Function <", n, ">"),
            Value::NativeFunction(n) => wrap_name("Native function <", n, ">"),
            Value::Class(n) => wrap_name("Class <", n, ">"),
            Value::Object(n, _) => wrap_name("Object of class <", n, ">"),
            Value::Dict(_) => String::from_str("<dict>"),
            Value::Array(_) => String::from_str("<array>"),
        }
    }
}

/// Compares two strings lexicographically by code point; see `lex_cmp`.
pub fn str_cmp(a: &str, b: &str) -> (r: OrderRel)
    ensures
        r == lex_cmp(a@, b@),
{
    let alen = a.unicode_len();
    let blen = b.unicode_len();
    let minlen: usize = if alen < blen {
        alen
    } else {
        blen
    };
    let mut i: usize = 0;
    proof {
        assert(a@.skip(0) =~= a@);
        assert(b@.skip(0) =~= b@);
    }
    while i < minlen
        invariant
            alen == a@.len(),
            blen == b@.len(),
            minlen == if alen < blen {
                alen as int
            } else {
                blen as int
            },
            i <= minlen,
            lex_cmp(a@.skip(i as int), b@.skip(i as int)) == lex_cmp(a@, b@),
        decreases minlen - i,
    {
        let ca = a.get_char(i);
        let cb = b.get_char(i);
        proof {
            assert(a@.skip(i as int)[0] == a@[i as int]);
            assert(b@.skip(i as int)[0] == b@[i as int]);
        }
        if (ca as u32) < (cb as u32) {
            return OrderRel::Less;
        }
        if (ca as u32) > (cb as u32) {
            return OrderRel::Greater;
        }
        proof {
            assert(a@.skip(i as int).skip(1) =~= a@.skip(i + 1));
            assert(b@.skip(i as int).skip(1) =~= b@.skip(i + 1));
        }
        i = i + 1;
    }
    if alen == blen {
        proof {
            assert(a@.skip(i as int).len() == 0);
            assert(b@.skip(i as int).len() == 0);
        }
        OrderRel::Equal
    } else if alen < blen {
        proof {
            assert(a@.skip(i as int).len() == 0);
            assert(b@.skip(i as int).len() > 0);
        }
        OrderRel::Less
    } else {
        proof {
            assert(b@.skip(i as int).len() == 0);
            assert(a@.skip(i as int).len() > 0);
        }
        OrderRel::Greater
    }
}

} // verus!

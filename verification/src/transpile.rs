use vstd::prelude::*;
use std::collections::HashSet;
use crate::ast::{FunctionCall, Node, NodeData};
use python_parser::ast::{Expression, PyString, Statement};
use wtf8::Wtf8Buf;

verus! {

broadcast use vstd::std_specs::hash::group_hash_axioms;

/// The character of a decimal digit.
pub open spec fn digit_char(d: nat) -> char {
    if d == 0 { '0' }
    else if d == 1 { '1' }
    else if d == 2 { '2' }
    else if d == 3 { '3' }
    else if d == 4 { '4' }
    else if d == 5 { '5' }
    else if d == 6 { '6' }
    else if d == 7 { '7' }
    else if d == 8 { '8' }
    else { '9' }
}

/// `n` written in decimal, without leading zeros.
pub open spec fn decimal(n: nat) -> Seq<char>
    decreases n,
{
    if n < 10 {
        seq![digit_char(n)]
    } else {
        decimal(n / 10).push(digit_char(n % 10))
    }
}

/// The `width` lowest decimal digits of `n`, most significant first, so
/// `n` padded with zeros on the left when it has fewer digits.
pub open spec fn padded_decimal(n: nat, width: nat) -> Seq<char>
    decreases width,
{
    if width == 0 {
        Seq::empty()
    } else {
        padded_decimal(n / 10, (width - 1) as nat).push(digit_char(n % 10))
    }
}

/// Ten to the power `w`.
pub open spec fn pow10(w: nat) -> nat
    decreases w,
{
    if w == 0 {
        1
    } else {
        10 * pow10((w - 1) as nat)
    }
}

proof fn lemma_padded_len(n: nat, w: nat)
    ensures
        padded_decimal(n, w).len() == w,
    decreases w,
{
    if w > 0 {
        lemma_padded_len(n / 10, (w - 1) as nat);
    }
}

proof fn lemma_padded_injective(a: nat, b: nat, w: nat)
    requires
        a < pow10(w),
        b < pow10(w),
        padded_decimal(a, w) == padded_decimal(b, w),
    ensures
        a == b,
    decreases w,
{
    if w > 0 {
        let pa = padded_decimal(a, w);
        let pb = padded_decimal(b, w);
        let w1 = (w - 1) as nat;
        assert(pa.last() == digit_char(a % 10));
        assert(pb.last() == digit_char(b % 10));
        assert(a % 10 == b % 10);
        assert(pa.drop_last() =~= padded_decimal(a / 10, w1));
        assert(pb.drop_last() =~= padded_decimal(b / 10, w1));
        assert(a / 10 < pow10(w1));
        assert(b / 10 < pow10(w1));
        lemma_padded_injective(a / 10, b / 10, w1);
    }
}

/// Different identifiers give different names: the ten digits of an
/// identifier tell it apart, in a sequence name and in an argument name alike.
pub proof fn law_distinct_ids_give_distinct_names(a: u32, b: u32, nth: usize, fn_name: Seq<char>)
    requires
        a != b,
    ensures
        "lambda_sequence_"@ + padded_decimal(a as nat, 10) != "lambda_sequence_"@ + padded_decimal(b as nat, 10),
        "arg_"@ + decimal(nth as nat) + "_"@ + padded_decimal(a as nat, 10) + "_"@ + fn_name != "arg_"@ + decimal(
            nth as nat,
        ) + "_"@ + padded_decimal(b as nat, 10) + "_"@ + fn_name,
{
    let pa = padded_decimal(a as nat, 10);
    let pb = padded_decimal(b as nat, 10);
    lemma_padded_len(a as nat, 10);
    lemma_padded_len(b as nat, 10);
    assert(pow10(10) == 10_000_000_000) by {
        reveal_with_fuel(pow10, 11);
    }
    if pa == pb {
        lemma_padded_injective(a as nat, b as nat, 10);
    }
    let l = "lambda_sequence_"@;
    if l + pa == l + pb {
        assert((l + pa).subrange(l.len() as int, l.len() + 10int) =~= pa);
        assert((l + pb).subrange(l.len() as int, l.len() + 10int) =~= pb);
    }
    let h = "arg_"@ + decimal(nth as nat) + "_"@;
    let t = "_"@ + fn_name;
    assert(h + pa + "_"@ + fn_name =~= h + pa + t);
    assert(h + pb + "_"@ + fn_name =~= h + pb + t);
    assert("arg_"@ + decimal(nth as nat) + "_"@ + pa =~= h + pa);
    assert("arg_"@ + decimal(nth as nat) + "_"@ + pb =~= h + pb);
    if h + pa + t == h + pb + t {
        assert((h + pa + t).subrange(h.len() as int, h.len() + 10int) =~= pa);
        assert((h + pb + t).subrange(h.len() as int, h.len() + 10int) =~= pb);
    }
}

/// The text of a single decimal digit.
fn digit_str(d: u64) -> (r: &'static str)
    requires
        d < 10,
    ensures
        r@ == seq![digit_char(d as nat)],
{
    proof {
        reveal_strlit("0");
        reveal_strlit("1");
        reveal_strlit("2");
        reveal_strlit("3");
        reveal_strlit("4");
        reveal_strlit("5");
        reveal_strlit("6");
        reveal_strlit("7");
        reveal_strlit("8");
        reveal_strlit("9");
    }
    if d == 0 { "0" }
    else if d == 1 { "1" }
    else if d == 2 { "2" }
    else if d == 3 { "3" }
    else if d == 4 { "4" }
    else if d == 5 { "5" }
    else if d == 6 { "6" }
    else if d == 7 { "7" }
    else if d == 8 { "8" }
    else { "9" }
}

/// Appends `n` in decimal to `s`.
fn push_decimal(s: &mut String, n: u64)
    ensures
        final(s)@ == old(s)@ + decimal(n as nat),
    decreases n,
{
    if n >= 10 {
        push_decimal(s, n / 10);
    }
    s.append(digit_str(n % 10));
}

/// Appends the `width` lowest decimal digits of `n` to `s`.
fn push_padded_decimal(s: &mut String, n: u64, width: u64)
    ensures
        final(s)@ == old(s)@ + padded_decimal(n as nat, width as nat),
    decreases width,
{
    if width > 0 {
        push_padded_decimal(s, n / 10, width - 1);
        s.append(digit_str(n % 10));
    }
}

/// Calls `rand::random::<u32>()`, a value drawn from the thread's random
/// generator; nothing is claimed of it beyond its type.
#[verifier::external_body]
fn random_u32() -> u32 {
    rand::random::<u32>()
}

/// Hands out identifiers that it never handed out before.
pub struct UidGenerator(HashSet<u32>);

impl View for UidGenerator {
    type V = Set<u32>;

    closed spec fn view(&self) -> Set<u32> {
        self.0@
    }
}

impl Default for UidGenerator {
    fn default() -> (r: Self)
        ensures
            r@ == Set::<u32>::empty(),
    {
        UidGenerator(HashSet::new())
    }
}

/// How many random draws are tried before the smallest free identifier is
/// taken.
pub const RANDOM_TRIES: u32 = 16;

impl UidGenerator {
    /// Some identifier is still free.
    pub open spec fn has_free_id(&self) -> bool {
        exists|x: u32| !self@.contains(x)
    }

    /// A fresh identifier: random while random draws find one, else the
    /// smallest free one. It is recorded as used.
    fn new_id(&mut self) -> (r: u32)
        requires
            old(self).has_free_id(),
        ensures
            !old(self)@.contains(r),
            final(self)@ == old(self)@.insert(r),
    {
        let mut tries: u32 = 0;
        while tries < RANDOM_TRIES
            invariant
                self@ == old(self)@,
            decreases RANDOM_TRIES - tries,
        {
            let rnd = random_u32();
            if !self.0.contains(&rnd) {
                self.0.insert(rnd);
                return rnd;
            }
            tries = tries + 1;
        }
        let mut candidate: u64 = 0;
        while candidate <= 0xffff_ffffu64
            invariant
                self@ == old(self)@,
                old(self).has_free_id(),
                forall|x: u32| x < candidate ==> self@.contains(x),
            decreases 0x1_0000_0000u64 - candidate,
        {
            let c: u32 = candidate as u32;
            if !self.0.contains(&c) {
                self.0.insert(c);
                return c;
            }
            candidate = candidate + 1;
        }
        proof {
            let x = choose|x: u32| !self@.contains(x);
            assert(x < candidate);
        }
        0
    }

    /// A fresh identifier written with ten digits, zeros first.
    fn new_id_str(&mut self) -> (r: String)
        requires
            old(self).has_free_id(),
        ensures
            exists|id: u32|
                #![trigger old(self)@.insert(id)]
                !old(self)@.contains(id) && final(self)@ == old(self)@.insert(id)
                    && r@ == padded_decimal(id as nat, 10),
    {
        let id = self.new_id();
        let mut s = String::new();
        push_padded_decimal(&mut s, id as u64, 10);
        assert(s@ == padded_decimal(id as nat, 10));
        s
    }

    /// The name of a function that holds a nested sequence.
    pub fn gen_lambda_sequence_name(&mut self) -> (r: String)
        requires
            old(self).has_free_id(),
        ensures
            exists|id: u32|
                #![trigger old(self)@.insert(id)]
                !old(self)@.contains(id) && final(self)@ == old(self)@.insert(id)
                    && r@ == "lambda_sequence_"@ + padded_decimal(id as nat, 10),
    {
        let id_str = self.new_id_str();
        let r = String::from_str("lambda_sequence_").concat(id_str.as_str());
        r
    }

    /// The name of the `nth` argument of a call of `fn_name`.
    pub fn gen_arg_name(&mut self, nth: usize, fn_name: &str) -> (r: String)
        requires
            old(self).has_free_id(),
        ensures
            exists|id: u32|
                #![trigger old(self)@.insert(id)]
                !old(self)@.contains(id) && final(self)@ == old(self)@.insert(id)
                    && r@ == "arg_"@ + decimal(nth as nat) + "_"@ + padded_decimal(id as nat, 10)
                    + "_"@ + fn_name@,
    {
        let mut r = String::from_str("arg_");
        push_decimal(&mut r, nth as u64);
        r.append("_");
        let id_str = self.new_id_str();
        r.append(id_str.as_str());
        r.append("_");
        r.append(fn_name);
        r
    }
}

/// A statement of the generated Python program.
#[derive(Debug, PartialEq)]
pub enum PyStatement {
    /// `target = "text"`.
    AssignString { target: String, text: String },
    /// `function()`.
    Call { function: String },
}

/// A Python statement with its texts as character sequences.
pub enum PyStatementView {
    AssignString { target: Seq<char>, text: Seq<char> },
    Call { function: Seq<char> },
}

impl View for PyStatement {
    type V = PyStatementView;

    open spec fn view(&self) -> PyStatementView {
        match self {
            PyStatement::AssignString { target, text } => PyStatementView::AssignString {
                target: target@,
                text: text@,
            },
            PyStatement::Call { function } => PyStatementView::Call { function: function@ },
        }
    }
}

/// The statements as character sequences.
pub open spec fn statements_view(stmts: Seq<PyStatement>) -> Seq<PyStatementView> {
    stmts.map_values(|s: PyStatement| s@)
}

/// A lowercase hexadecimal digit.
pub open spec fn hex_digit(d: nat) -> char {
    if d < 10 {
        digit_char(d)
    } else if d == 10 {
        'a'
    } else if d == 11 {
        'b'
    } else if d == 12 {
        'c'
    } else if d == 13 {
        'd'
    } else if d == 14 {
        'e'
    } else {
        'f'
    }
}

/// The `width` lowest hexadecimal digits of `n`, most significant first.
pub open spec fn padded_hex(n: nat, width: nat) -> Seq<char>
    decreases width,
{
    if width == 0 {
        Seq::empty()
    } else {
        padded_hex(n / 16, (width - 1) as nat).push(hex_digit(n % 16))
    }
}

/// A character inside a Python string literal: carriage return, line feed,
/// tab, backslash and double quote are escaped with a backslash; other
/// printable ASCII characters stand as they are; the others are written
/// `\xhh` up to 0xff, `\uhhhh` up to 0xffff and `\Uhhhhhhhh` beyond.
pub open spec fn escaped_char(c: char) -> Seq<char> {
    let u = c as nat;
    if u == 0x0d {
        seq!['\\', 'r']
    } else if u == 0x0a {
        seq!['\\', 'n']
    } else if u == 0x09 {
        seq!['\\', 't']
    } else if u == 0x5c {
        seq!['\\', '\\']
    } else if u == 0x22 {
        seq!['\\', '"']
    } else if 0x20 <= u <= 0x7e {
        seq![c]
    } else if u <= 0xff {
        seq!['\\', 'x'] + padded_hex(u, 2)
    } else if u <= 0xffff {
        seq!['\\', 'u'] + padded_hex(u, 4)
    } else {
        seq!['\\', 'U'] + padded_hex(u, 8)
    }
}

/// A text with each character escaped.
pub open spec fn escaped(text: Seq<char>) -> Seq<char>
    decreases text.len(),
{
    if text.len() == 0 {
        Seq::empty()
    } else {
        escaped(text.drop_last()) + escaped_char(text.last())
    }
}

/// A statement on its line: `target = "text"`, the text escaped, or
/// `function()`.
pub open spec fn statement_text(stmt: PyStatementView) -> Seq<char> {
    match stmt {
        PyStatementView::AssignString { target, text } => target + seq![' ', '=', ' ', '"'] + escaped(text)
            + seq!['"', '\n'],
        PyStatementView::Call { function } => function + seq!['(', ')', '\n'],
    }
}

/// The statements, one per line, in order.
pub open spec fn module_text(stmts: Seq<PyStatementView>) -> Seq<char>
    decreases stmts.len(),
{
    if stmts.len() == 0 {
        Seq::empty()
    } else {
        module_text(stmts.drop_last()) + statement_text(stmts.last())
    }
}

/// Calls `python_parser::visitors::printer::format_module` on the statements,
/// each turned into the parser's own syntax tree (an assignment of a string
/// literal without prefix, a call without arguments). The printer writes each
/// statement on its own line without indent: the assignment as the name,
/// ` = ` and the literal in double quotes with its characters escaped, the
/// call as the name and `()`; the contract says so (`module_text`).
#[verifier::external_body]
fn print_module(stmts: Vec<PyStatement>) -> (r: String)
    ensures
        r@ == module_text(statements_view(stmts@)),
{
    let converted: Vec<Statement> = stmts.into_iter().map(|stmt| match stmt {
        PyStatement::AssignString { target, text } => Statement::Assignment(
            vec![Expression::Name(target)],
            vec![vec![Expression::String(vec![PyString { prefix: String::new(), content: Wtf8Buf::from_string(text) }])]],
        ),
        PyStatement::Call { function } => Statement::Assignment(
            vec![Expression::Call(Box::new(Expression::Name(function)), vec![])],
            vec![],
        ),
    }).collect();
    python_parser::visitors::printer::format_module(&converted)
}

/// The nodes that the translation handles: a literal and a call.
pub open spec fn is_translatable(node: Node) -> bool {
    node.data is RawText || node.data is FunctionCall
}

/// The statements a translatable node becomes: a literal is assigned to
/// `e`, a call is made without its arguments.
pub open spec fn translation(node: Node) -> Seq<PyStatementView> {
    match node.data {
        NodeData::RawText(text) => seq![PyStatementView::AssignString { target: "e"@, text: text@ }],
        NodeData::FunctionCall(call) => seq![PyStatementView::Call { function: call.name@ }],
        _ => Seq::empty(),
    }
}

/// Translates one node into Python statements.
fn run(ast: &Node, is_first: bool, uid_generator: &mut UidGenerator) -> (r: Vec<PyStatement>)
    requires
        is_translatable(*ast),
    ensures
        statements_view(r@) == translation(*ast),
        final(uid_generator)@ == old(uid_generator)@,
{
    proof {
        reveal_strlit("e");
    }
    match &ast.data {
        NodeData::RawText(string) => {
            let r = vec![PyStatement::AssignString { target: String::from_str("e"), text: string.clone() }];
            assert(statements_view(r@) =~= translation(*ast));
            r
        },
        NodeData::FunctionCall(FunctionCall { name, argv: _ }) => {
            let r = vec![PyStatement::Call { function: name.clone() }];
            assert(statements_view(r@) =~= translation(*ast));
            r
        },
        _ => {
            assert(false);
            Vec::new()
        },
    }
}

/// The Python text of a program made of a literal or a call.
pub fn ast_to_python(ast: &Node) -> (r: String)
    requires
        is_translatable(*ast),
    ensures
        r@ == module_text(translation(*ast)),
{
    let mut uid_generator = UidGenerator::default();
    let stmts = run(ast, true, &mut uid_generator);
    print_module(stmts)
}

} // verus!

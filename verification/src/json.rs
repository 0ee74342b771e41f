//! JSON text: objects and arrays put together from their members.

use vstd::prelude::*;

use crate::text;

verus! {

/// The character is a control character.
pub open spec fn is_control(c: char) -> bool {
    c as int <= 0x1f || 0x7f <= c as int <= 0x9f
}

/// A hexadecimal digit, in lower case.
pub open spec fn hex_digit(n: int) -> char {
    if n < 10 {
        (48 + n) as char
    } else {
        (87 + n) as char
    }
}

/// A character inside a string.
pub open spec fn escaped(c: char) -> Seq<char> {
    if c == '"' {
        seq!['\\', '"']
    } else if c == '\\' {
        seq!['\\', '\\']
    } else if c == '\n' {
        seq!['\\', 'n']
    } else if c == '\r' {
        seq!['\\', 'r']
    } else if c == '\t' {
        seq!['\\', 't']
    } else if is_control(c) {
        seq!['\\', 'u', '0', '0', hex_digit(c as int / 16), hex_digit(c as int % 16)]
    } else {
        seq![c]
    }
}

/// The characters inside a string.
pub open spec fn escaped_text(s: Seq<char>) -> Seq<char>
    decreases s.len(),
{
    if s.len() == 0 {
        Seq::empty()
    } else {
        escaped_text(s.drop_last()) + escaped(s.last())
    }
}

/// A string.
#[verifier::opaque]
pub open spec fn quoted(s: Seq<char>) -> Seq<char> {
    seq!['"'] + escaped_text(s) + seq!['"']
}

/// A member of an object: a key and the text of its value.
#[verifier::opaque]
pub open spec fn member(key: Seq<char>, value: Seq<char>) -> Seq<char> {
    seq!['"'] + key + seq!['"', ':'] + value
}

/// A member whose value is a number.
#[verifier::opaque]
pub open spec fn num(key: Seq<char>, n: int) -> Seq<char> {
    member(key, text::signed_decimal(n))
}

/// A member whose value is a string.
#[verifier::opaque]
pub open spec fn string(key: Seq<char>, s: Seq<char>) -> Seq<char> {
    member(key, quoted(s))
}

/// A truth value.
#[verifier::opaque]
pub open spec fn truth(b: bool) -> Seq<char> {
    if b {
        "true"@
    } else {
        "false"@
    }
}

/// A member whose value is a truth value.
#[verifier::opaque]
pub open spec fn flag(key: Seq<char>, b: bool) -> Seq<char> {
    member(key, truth(b))
}

/// A list of texts with commas between them.
#[verifier::opaque]
pub open spec fn joined(list: Seq<Seq<char>>) -> Seq<char>
    decreases list.len(),
{
    if list.len() == 0 {
        Seq::empty()
    } else if list.len() == 1 {
        list[0]
    } else {
        joined(list.drop_last()) + seq![','] + list.last()
    }
}

/// An object with the given members.
#[verifier::opaque]
pub open spec fn object(members: Seq<Seq<char>>) -> Seq<char> {
    seq!['{'] + joined(members) + seq!['}']
}

/// An array of the given values.
#[verifier::opaque]
pub open spec fn array(values: Seq<Seq<char>>) -> Seq<char> {
    seq!['['] + joined(values) + seq![']']
}

/// A pair of numbers.
#[verifier::opaque]
pub open spec fn point(a: int, b: int) -> Seq<char> {
    array(seq![text::signed_decimal(a), text::signed_decimal(b)])
}

/// A member whose value is a pair of numbers.
#[verifier::opaque]
pub open spec fn pair(key: Seq<char>, a: int, b: int) -> Seq<char> {
    member(key, point(a, b))
}

fn hex(n: u8) -> (c: char)
    requires
        n < 16,
    ensures
        c == hex_digit(n as int),
{
    if n < 10 {
        (48 + n) as char
    } else {
        (87 + n) as char
    }
}

/// Append a character that has no escape of its own.
fn push_plain(out: &mut String, c: char)
    requires
        c != '"' && c != '\\' && c != '\n' && c != '\r' && c != '\t',
    ensures
        final(out)@ == old(out)@ + escaped(c),
{
    let code: u32 = c as u32;
    if code <= 0x1f || 0x7f <= code && code <= 0x9f {
        let n: u8 = code as u8;
        out.push('\\');
        out.push('u');
        out.push('0');
        out.push('0');
        out.push(hex(n / 16));
        out.push(hex(n % 16));
    } else {
        out.push(c);
    }
    assert(out@ =~= old(out)@ + escaped(c));
}

/// Append a string.
pub fn push_json_string(out: &mut String, val: &str)
    ensures
        final(out)@ == old(out)@ + quoted(val@),
{
    let ghost before = out@;
    let chars: Vec<char> = text::chars_of(val);
    out.push('"');
    assert(out@ =~= before + seq!['"'] + escaped_text(val@.take(0)));
    for i in 0..chars.len()
        invariant
            chars@ == val@,
            out@ == before + seq!['"'] + escaped_text(val@.take(i as int)),
    {
        let c: char = chars[i];
        let ghost so_far = out@;
        if c == '"' {
            out.push('\\');
            out.push('"');
        } else if c == '\\' {
            out.push('\\');
            out.push('\\');
        } else if c == '\n' {
            out.push('\\');
            out.push('n');
        } else if c == '\r' {
            out.push('\\');
            out.push('r');
        } else if c == '\t' {
            out.push('\\');
            out.push('t');
        } else {
            push_plain(out, c);
        }
        proof {
            assert(out@ =~= so_far + escaped(c));
            let next = val@.take(i + 1);
            assert(next.drop_last() =~= val@.take(i as int));
            assert(next.last() == c);
            assert(out@ =~= before + seq!['"'] + escaped_text(next));
        }
    }
    out.push('"');
    proof {
        reveal(quoted);
        assert(val@.take(val@.len() as int) =~= val@);
        assert(out@ =~= before + quoted(val@));
    }
}

/// A list of members or values under construction.
pub struct Members {
    text: String,
    empty: bool,
    list: Ghost<Seq<Seq<char>>>,
}

impl View for Members {
    type V = Seq<Seq<char>>;

    closed spec fn view(&self) -> Seq<Seq<char>> {
        self.list@
    }
}

impl Members {
    /// The text is that of the list.
    pub closed spec fn wf(&self) -> bool {
        &&& self.text@ == joined(self.list@)
        &&& self.empty == (self.list@.len() == 0)
    }

    /// An empty list.
    pub fn new() -> (m: Members)
        ensures
            m.wf(),
            m@ == Seq::<Seq<char>>::empty(),
    {
        let m: Members = Members { text: String::new(), empty: true, list: Ghost(Seq::empty()) };
        proof {
            reveal(joined);
            assert(m.text@ =~= joined(m.list@));
        }
        m
    }

    /// Append a member or value.
    pub fn put(&mut self, m: &str)
        requires
            old(self).wf(),
        ensures
            final(self).wf(),
            final(self)@ == old(self)@.push(m@),
    {
        let ghost next = self.list@.push(m@);
        if !self.empty {
            self.text.push(',');
        }
        self.text.push_str(m);
        self.empty = false;
        self.list = Ghost(next);
        proof {
            reveal(joined);
            assert(next.drop_last() =~= old(self).list@);
            if old(self).list@.len() == 0 {
                assert(self.text@ =~= m@);
            } else {
                assert(self.text@ =~= joined(old(self).list@) + seq![','] + m@);
            }
        }
    }

    /// Append a member with a given value.
    pub fn member(&mut self, key: &str, value: &str)
        requires
            old(self).wf(),
        ensures
            final(self).wf(),
            final(self)@ == old(self)@.push(member(key@, value@)),
    {
        let mut m: String = head(key);
        m.push_str(value);
        assert(m@ =~= member(key@, value@)) by {
            reveal(member);
        }
        self.put(m.as_str());
    }

    /// Append a member whose value is a string.
    pub fn string(&mut self, key: &str, s: &str)
        requires
            old(self).wf(),
        ensures
            final(self).wf(),
            final(self)@ == old(self)@.push(string(key@, s@)),
    {
        let mut m: String = head(key);
        push_json_string(&mut m, s);
        assert(m@ =~= string(key@, s@)) by {
            reveal(member);
            reveal(string);
        }
        self.put(m.as_str());
    }

    /// Append a member whose value is a truth value.
    pub fn flag(&mut self, key: &str, b: bool)
        requires
            old(self).wf(),
        ensures
            final(self).wf(),
            final(self)@ == old(self)@.push(flag(key@, b)),
    {
        proof {
            reveal(flag);
            reveal(truth);
        }
        self.member(
            key,
            if b {
                "true"
            } else {
                "false"
            },
        );
    }

    /// Append a member whose value is a number.
    pub fn num(&mut self, key: &str, n: u64)
        requires
            old(self).wf(),
        ensures
            final(self).wf(),
            final(self)@ == old(self)@.push(num(key@, n as int)),
    {
        let mut m: String = head(key);
        text::push_decimal(&mut m, n);
        assert(m@ =~= num(key@, n as int)) by {
            reveal(member);
            reveal(num);
        }
        self.put(m.as_str());
    }

    /// Append a member whose value is a signed number.
    pub fn signed(&mut self, key: &str, n: i64)
        requires
            old(self).wf(),
        ensures
            final(self).wf(),
            final(self)@ == old(self)@.push(num(key@, n as int)),
    {
        let mut m: String = head(key);
        text::push_signed_decimal(&mut m, n);
        assert(m@ =~= num(key@, n as int)) by {
            reveal(member);
            reveal(num);
        }
        self.put(m.as_str());
    }

    /// Append a number.
    pub fn value(&mut self, n: i64)
        requires
            old(self).wf(),
        ensures
            final(self).wf(),
            final(self)@ == old(self)@.push(text::signed_decimal(n as int)),
    {
        let mut m: String = String::new();
        text::push_signed_decimal(&mut m, n);
        assert(m@ =~= text::signed_decimal(n as int));
        self.put(m.as_str());
    }

    /// Append a member whose value is a pair of numbers.
    pub fn pair(&mut self, key: &str, a: i64, b: i64)
        requires
            old(self).wf(),
        ensures
            final(self).wf(),
            final(self)@ == old(self)@.push(pair(key@, a as int, b as int)),
    {
        let mut values: Members = Members::new();
        values.value(a);
        values.value(b);
        proof {
            reveal(pair);
            reveal(point);
            assert(values@ =~= seq![text::signed_decimal(a as int), text::signed_decimal(b as int)]);
        }
        let text: String = values.into_array();
        self.member(key, text.as_str());
    }

    /// The object with these members.
    pub fn into_object(self) -> (s: String)
        requires
            self.wf(),
        ensures
            s@ == object(self@),
    {
        let mut s: String = String::new();
        s.push('{');
        s.push_str(self.text.as_str());
        s.push('}');
        assert(s@ =~= object(self@)) by {
            reveal(object);
        }
        s
    }

    /// The array of these values.
    pub fn into_array(self) -> (s: String)
        requires
            self.wf(),
        ensures
            s@ == array(self@),
    {
        let mut s: String = String::new();
        s.push('[');
        s.push_str(self.text.as_str());
        s.push(']');
        assert(s@ =~= array(self@)) by {
            reveal(array);
        }
        s
    }
}

/// A key and the colon behind it.
fn head(key: &str) -> (m: String)
    ensures
        m@ == seq!['"'] + key@ + seq!['"', ':'],
{
    let mut m: String = String::new();
    m.push('"');
    m.push_str(key);
    m.push('"');
    m.push(':');
    assert(m@ =~= seq!['"'] + key@ + seq!['"', ':']);
    m
}

/// A pair of numbers.
pub fn point_text(a: i64, b: i64) -> (s: String)
    ensures
        s@ == point(a as int, b as int),
{
    let mut values: Members = Members::new();
    values.value(a);
    values.value(b);
    proof {
        reveal(point);
        assert(values@ =~= seq![text::signed_decimal(a as int), text::signed_decimal(b as int)]);
    }
    values.into_array()
}

/// Whether a text is empty.
pub fn is_empty(s: &str) -> (r: bool)
    ensures
        r == (s@.len() == 0),
{
    s.unicode_len() == 0
}

/// Whether two texts are the same.
pub fn same_text(a: &str, b: &str) -> (r: bool)
    ensures
        r == (a@ == b@),
{
    let x: Vec<char> = text::chars_of(a);
    let y: Vec<char> = text::chars_of(b);
    if x.len() != y.len() {
        return false;
    }
    for i in 0..x.len()
        invariant
            x@ == a@,
            y@ == b@,
            x@.len() == y@.len(),
            forall|k: int| 0 <= k < i ==> x@[k] == y@[k],
    {
        if x[i] != y[i] {
            return false;
        }
    }
    assert(a@ =~= b@);
    true
}

proof fn lemma_escaped(c: char)
    ensures
        forall|k: int| 0 <= k < escaped(c).len() ==> !is_control(#[trigger] escaped(c)[k]),
        forall|k: int|
            0 <= k < escaped(c).len() && #[trigger] escaped(c)[k] == '"' ==> k > 0 && escaped(c)[k - 1] == '\\',
{
    let code = c as int;
    if is_control(c) {
        assert(0 <= code / 16 < 16 && 0 <= code % 16 < 16);
        assert(hex_digit(code / 16) as int == if code / 16 < 10 { 48 + code / 16 } else { 87 + code / 16 });
        assert(hex_digit(code % 16) as int == if code % 16 < 10 { 48 + code % 16 } else { 87 + code % 16 });
    }
}

/// No character of a text ends the string that holds it: control characters
/// do not occur inside, and a quote only occurs behind a backslash.
pub proof fn law_escaped_text_stays_inside(s: Seq<char>)
    ensures
        forall|i: int| 0 <= i < escaped_text(s).len() ==> !is_control(#[trigger] escaped_text(s)[i]),
        forall|i: int|
            0 <= i < escaped_text(s).len() && #[trigger] escaped_text(s)[i] == '"' ==> i > 0 && escaped_text(s)[i - 1]
                == '\\',
    decreases s.len(),
{
    if s.len() > 0 {
        law_escaped_text_stays_inside(s.drop_last());
        let front = escaped_text(s.drop_last());
        let c = s.last();
        let back = escaped(c);
        lemma_escaped(c);
        let whole = escaped_text(s);
        assert(whole == front + back);
        assert forall|i: int| 0 <= i < whole.len() implies !is_control(#[trigger] whole[i]) by {
            if i >= front.len() {
                assert(whole[i] == back[i - front.len()]);
            }
        }
        assert forall|i: int| 0 <= i < whole.len() && #[trigger] whole[i] == '"' implies i > 0 && whole[i - 1]
            == '\\' by {
            if i >= front.len() {
                assert(whole[i] == back[i - front.len()]);
            }
        }
    }
}

/// A character inside a string stands for itself, unless it would end the
/// string or is a control character; then a backslash and a letter or four
/// hexadecimal digits stand for it.
pub proof fn law_characters_are_escaped(c: char)
    ensures
        c != '"' && c != '\\' && c as int >= 0x20 && !(0x7f <= c as int <= 0x9f) ==> escaped(c) == seq![c],
        c == '"' || c == '\\' ==> escaped(c) == seq!['\\', c],
        c == '\n' ==> escaped(c) == seq!['\\', 'n'],
        c == '\r' ==> escaped(c) == seq!['\\', 'r'],
        c == '\t' ==> escaped(c) == seq!['\\', 't'],
        (c as int) < 0x20 && c != '\n' && c != '\r' && c != '\t' || 0x7f <= c as int <= 0x9f ==> {
            let e = escaped(c);
            &&& e.len() == 6
            &&& e[0] == '\\' && e[1] == 'u' && e[2] == '0' && e[3] == '0'
            &&& hex_value(e[4]) * 16 + hex_value(e[5]) == c as int
        },
{
}

/// The value of a hexadecimal digit in lower case.
pub open spec fn hex_value(c: char) -> int {
    if '0' <= c <= '9' {
        c as int - '0' as int
    } else {
        c as int - 'a' as int + 10
    }
}

/// Texts are escaped character by character.
pub proof fn law_texts_are_escaped_by_character(a: Seq<char>, b: Seq<char>)
    ensures
        escaped_text(a + b) == escaped_text(a) + escaped_text(b),
        forall|c: char| #[trigger] escaped_text(seq![c]) == escaped(c),
    decreases b.len(),
{
    assert forall|c: char| #[trigger] escaped_text(seq![c]) == escaped(c) by {
        assert(seq![c].drop_last() =~= Seq::<char>::empty());
        assert(escaped_text(Seq::<char>::empty()) =~= Seq::<char>::empty());
        assert(escaped_text(seq![c]) =~= escaped(c));
    }
    if b.len() == 0 {
        assert(a + b =~= a);
        assert(escaped_text(a) + escaped_text(b) =~= escaped_text(a));
    } else {
        law_texts_are_escaped_by_character(a, b.drop_last());
        assert((a + b).drop_last() =~= a + b.drop_last());
        assert(escaped_text(a + b) =~= escaped_text(a) + escaped_text(b));
    }
}

/// Members and values stand in their brackets, with commas between them; a
/// member is its key in quotes, a colon and its value.
pub proof fn law_brackets_hold_what_is_in_them(list: Seq<Seq<char>>, x: Seq<char>, key: Seq<char>)
    ensures
        object(Seq::empty()) == "{}"@,
        array(Seq::empty()) == "[]"@,
        joined(seq![x]) == x,
        list.len() > 0 ==> joined(list.push(x)) == joined(list) + ","@ + x,
        object(list) == "{"@ + joined(list) + "}"@,
        array(list) == "["@ + joined(list) + "]"@,
        member(key, x) == "\""@ + key + "\":"@ + x,
        quoted(x) == "\""@ + escaped_text(x) + "\""@,
        flag(key, true) == member(key, "true"@),
        flag(key, false) == member(key, "false"@),
{
    reveal(quoted);
    reveal(member);
    reveal(truth);
    reveal(flag);
    reveal(object);
    reveal(array);
    reveal_with_fuel(joined, 3);
    reveal_strlit("{}");
    reveal_strlit("[]");
    reveal_strlit(",");
    reveal_strlit("{");
    reveal_strlit("}");
    reveal_strlit("[");
    reveal_strlit("]");
    reveal_strlit("\"");
    reveal_strlit("\":");
    assert(object(Seq::empty()) =~= "{}"@);
    assert(array(Seq::empty()) =~= "[]"@);
    assert(list.push(x).drop_last() =~= list);
    if list.len() > 0 {
        assert(joined(list.push(x)) =~= joined(list) + ","@ + x);
    }
    assert(object(list) =~= "{"@ + joined(list) + "}"@);
    assert(array(list) =~= "["@ + joined(list) + "]"@);
    assert(member(key, x) =~= "\""@ + key + "\":"@ + x);
    assert(quoted(x) =~= "\""@ + escaped_text(x) + "\""@);
}

/// A pair is an array of two numbers, in order.
pub proof fn law_pairs_keep_their_order(key: Seq<char>, a: int, b: int)
    ensures
        pair(key, a, b) == member(key, "["@ + text::signed_decimal(a) + ","@ + text::signed_decimal(b) + "]"@),
        num(key, a) == member(key, text::signed_decimal(a)),
{
    reveal(num);
    reveal(pair);
    reveal(point);
    reveal(array);
    reveal_with_fuel(joined, 3);
    reveal_strlit("[");
    reveal_strlit("]");
    reveal_strlit(",");
    let (x, y) = (text::signed_decimal(a), text::signed_decimal(b));
    assert(seq![x, y].drop_last() =~= seq![x]);
    assert(joined(seq![x, y]) == joined(seq![x]) + seq![','] + y);
    assert(point(a, b) =~= "["@ + x + ","@ + y + "]"@);
}

} // verus!

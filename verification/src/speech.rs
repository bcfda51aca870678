//! Text to be spoken, made safe for the wire.
//!
//! A `speak` command sends its text as lines ended by CR LF and closes it
//! with a line that holds a single dot. So that a line of the text which
//! begins with a dot is not taken for that closing line, the dot is doubled
//! before sending, and the receiving side drops one dot from every line that
//! begins with one. Only CR LF ends a line here; a lone line feed does not.
use vstd::prelude::*;
use vstd::std_specs::convert::FromSpecImpl;
use vstd::std_specs::iter::IteratorSpec;
use std::borrow::Cow;

verus! {

/// Whether the last two characters of `s` are CR LF.
pub open spec fn ends_with_crlf(s: Seq<char>) -> bool {
    s.len() >= 2 && s[s.len() - 2] == '\r' && s[s.len() - 1] == '\n'
}

/// Whether position `i` of `s` comes directly after a CR LF.
pub open spec fn after_crlf(s: Seq<char>, i: int) -> bool {
    2 <= i <= s.len() && s[i - 2] == '\r' && s[i - 1] == '\n'
}

/// Whether a line begins at position `i` of `s`: at the very start, and
/// after every CR LF.
pub open spec fn line_start(s: Seq<char>, i: int) -> bool {
    i == 0 || after_crlf(s, i)
}

/// Whether some line of `s` begins with a dot.
pub open spec fn has_dot_line(s: Seq<char>) -> bool {
    exists|i: int| 0 <= i < s.len() && line_start(s, i) && #[trigger] s[i] == '.'
}

/// Whether some line of `s` other than the first begins with a dot.
pub open spec fn has_dot_after_crlf(s: Seq<char>) -> bool {
    exists|i: int| 0 <= i < s.len() && after_crlf(s, i) && #[trigger] s[i] == '.'
}

/// The text `s` with every dot that comes directly after a CR LF doubled.
/// The definition goes by the last character: it is written twice if it is
/// such a dot, once if not, after what the text before it gives.
pub open spec fn escaped(s: Seq<char>) -> Seq<char>
    decreases s.len(),
{
    if s.len() == 0 {
        s
    } else if s.last() == '.' && ends_with_crlf(s.drop_last()) {
        escaped(s.drop_last()).push('.').push('.')
    } else {
        escaped(s.drop_last()).push(s.last())
    }
}

/// What the receiving side makes of the text `s`: every line that begins
/// with a dot loses that one dot. The definition goes by the last
/// character: it is left out if it is a dot at the start of a line, and
/// kept if not.
pub open spec fn unescaped(s: Seq<char>) -> Seq<char>
    decreases s.len(),
{
    if s.len() == 0 {
        s
    } else if s.last() == '.' && (s.len() == 1 || ends_with_crlf(s.drop_last())) {
        unescaped(s.drop_last())
    } else {
        unescaped(s.drop_last()).push(s.last())
    }
}

/// Whether every dot of `s` that comes directly after a CR LF is followed by
/// a second dot, so that no line after the first is a single dot.
pub open spec fn is_dot_safe(s: Seq<char>) -> bool {
    forall|i: int|
        0 <= i < s.len() && after_crlf(s, i) && #[trigger] s[i] == '.' ==> {
            &&& i + 1 < s.len()
            &&& s[i + 1] == '.'
        }
}

/// Whether some line of the text begins with a dot.
pub fn find_dot_line(s: &str) -> (found: bool)
    ensures
        found == has_dot_line(s@),
{
    broadcast use vstd::string::group_string_axioms;

    let mut it = s.chars();
    let mut at_start = true;
    let mut after_cr = false;
    let ghost mut n: int = 0;
    loop
        invariant
            it.obeys_prophetic_iter_laws(),
            0 <= n <= s@.len(),
            it.remaining() == s@.skip(n),
            at_start == line_start(s@, n),
            after_cr == (n >= 1 && s@[n - 1] == '\r'),
            forall|i: int| 0 <= i < n && line_start(s@, i) ==> s@[i] != '.',
        ensures
            !has_dot_line(s@),
        decreases s@.len() - n,
    {
        match it.next() {
            Some(c) => {
                assert(c == s@[n]);
                if at_start && c == '.' {
                    return true;
                }
                at_start = after_cr && c == '\n';
                after_cr = c == '\r';
                proof {
                    assert(s@.skip(n).drop_first() =~= s@.skip(n + 1));
                    n = n + 1;
                }
            },
            None => {
                break;
            },
        }
    }
    false
}

/// A copy of the text in which every dot directly after a CR LF is doubled.
pub fn escape(s: &str) -> (out: String)
    ensures
        out@ == escaped(s@),
{
    broadcast use vstd::string::group_string_axioms;

    let mut out = String::new();
    let mut it = s.chars();
    let mut at_start = false;
    let mut after_cr = false;
    let ghost mut n: int = 0;
    loop
        invariant
            it.obeys_prophetic_iter_laws(),
            0 <= n <= s@.len(),
            it.remaining() == s@.skip(n),
            at_start == after_crlf(s@, n),
            after_cr == (n >= 1 && s@[n - 1] == '\r'),
            out@ == escaped(s@.take(n)),
        ensures
            out@ == escaped(s@),
        decreases s@.len() - n,
    {
        match it.next() {
            Some(c) => {
                proof {
                    assert(c == s@[n]);
                    assert(s@.take(n + 1).drop_last() =~= s@.take(n));
                    assert(s@.take(n + 1).last() == c);
                    assert(ends_with_crlf(s@.take(n)) == after_crlf(s@, n));
                }
                if at_start && c == '.' {
                    out.push('.');
                    out.push('.');
                } else {
                    out.push(c);
                }
                at_start = after_cr && c == '\n';
                after_cr = c == '\r';
                proof {
                    assert(s@.skip(n).drop_first() =~= s@.skip(n + 1));
                    n = n + 1;
                }
            },
            None => {
                assert(s@.take(n) =~= s@);
                break;
            },
        }
    }
    out
}

/// Text that is ready to be sent as the payload of a `speak` command.
///
/// It holds the caller's own string slice where nothing had to be changed,
/// and a string of its own where dots were doubled.
#[derive(Debug)]
pub struct Speech<'a>(Cow<'a, str>);

impl<'a> Clone for Speech<'a> {
    /// A copy with the same text, borrowed where this one is borrowed.
    fn clone(&self) -> (r: Self)
        ensures
            r == *self,
    {
        proof {
            use_type_invariant(self);
        }
        match &self.0 {
            Cow::Borrowed(s) => Speech(Cow::Borrowed(s)),
            Cow::Owned(s) => Speech(Cow::Owned(s.clone())),
        }
    }
}

impl<'a> View for Speech<'a> {
    type V = Seq<char>;

    /// The text as it goes on the wire.
    closed spec fn view(&self) -> Seq<char> {
        self.0@
    }
}

impl<'a> Speech<'a> {
    /// The caller's string slice, where this value holds it unchanged;
    /// `None` where it holds a copy with doubled dots.
    pub closed spec fn borrowed(self) -> Option<&'a str> {
        match self.0 {
            Cow::Borrowed(s) => Some(s),
            Cow::Owned(_) => None,
        }
    }

    #[verifier::type_invariant]
    spec fn dot_safe(self) -> bool {
        is_dot_safe(self.0@)
    }

    /// Whether this value holds the caller's string slice itself rather
    /// than a copy.
    pub fn is_borrowed(&self) -> (b: bool)
        ensures
            b == self.borrowed() is Some,
    {
        match &self.0 {
            Cow::Borrowed(_) => true,
            Cow::Owned(_) => false,
        }
    }

    /// The text as it goes on the wire, as an owned string.
    pub fn to_string(&self) -> (s: String)
        ensures
            s@ == self@,
    {
        self.as_str().to_owned()
    }

    /// The text as it goes on the wire. No line of it after the first is a
    /// single dot.
    pub fn as_str(&self) -> (s: &str)
        ensures
            s@ == self@,
            is_dot_safe(s@),
            self.borrowed() matches Some(b) ==> s == b,
    {
        proof {
            use_type_invariant(self);
        }
        match &self.0 {
            Cow::Borrowed(s) => s,
            Cow::Owned(s) => s.as_str(),
        }
    }
}

impl<'a> FromSpecImpl<&'a str> for Speech<'a> {
    /// Two strings with the same characters need not be the same value, so
    /// the result is described by the postcondition of `from`, not by a
    /// value given here.
    open spec fn obeys_from_spec() -> bool {
        false
    }

    open spec fn from_spec(s: &'a str) -> Self {
        arbitrary()
    }
}

impl<'a> From<&'a str> for Speech<'a> {
    /// Makes text safe for the wire. Where no line of `s` begins with a dot
    /// the result holds `s` itself; otherwise it holds a copy of `s` in
    /// which every dot directly after a CR LF is doubled.
    fn from(s: &'a str) -> (r: Self)
        ensures
            r@ == escaped(s@),
            is_dot_safe(r@),
            has_dot_line(s@) ==> r.borrowed() is None,
            !has_dot_line(s@) ==> r.borrowed() == Some(s) && r@ == s@,
    {
        if find_dot_line(s) {
            let text = escape(s);
            proof {
                lemma_escaped_is_dot_safe(s@);
            }
            Speech(Cow::Owned(text))
        } else {
            proof {
                lemma_escaped_without_dots(s@);
                lemma_escaped_is_dot_safe(s@);
            }
            Speech(Cow::Borrowed(s))
        }
    }
}

impl AsRef<str> for Speech<'_> {
    /// The text as it goes on the wire.
    fn as_ref(&self) -> (s: &str)
        ensures
            s@ == self@,
    {
        self.as_str()
    }
}

impl std::borrow::Borrow<str> for Speech<'_> {
    /// The text as it goes on the wire.
    fn borrow(&self) -> (s: &str)
        ensures
            ({
                let text: &str = s;
                text@ == self@
            }),
    {
        self.as_str()
    }
}

impl<'a> std::ops::Deref for Speech<'a> {
    type Target = Cow<'a, str>;

    /// The text as it goes on the wire, borrowed or owned as this value holds it.
    fn deref(&self) -> (text: &Self::Target)
        ensures
            text@ == self@,
            *text is Borrowed <==> self.borrowed() is Some,
    {
        &self.0
    }
}

/// What doubling keeps: the text does not get shorter, its first and last
/// characters stay, and it ends with CR LF exactly when it did before.
pub proof fn lemma_escaped_ends(s: Seq<char>)
    ensures
        escaped(s).len() >= s.len(),
        s.len() > 0 ==> escaped(s)[0] == s[0] && escaped(s).last() == s.last(),
        ends_with_crlf(escaped(s)) == ends_with_crlf(s),
    decreases s.len(),
{
    if s.len() > 0 {
        lemma_escaped_ends(s.drop_last());
    }
}

/// Escaped text is safe: every dot directly after a CR LF is followed by a
/// second dot, so no line after the first is a single dot.
pub proof fn lemma_escaped_is_dot_safe(s: Seq<char>)
    ensures
        is_dot_safe(escaped(s)),
    decreases s.len(),
{
    if s.len() > 0 {
        let front = s.drop_last();
        lemma_escaped_is_dot_safe(front);
        lemma_escaped_ends(front);
        let e = escaped(s);
        let ef = escaped(front);
        assert forall|i: int|
            0 <= i < e.len() && after_crlf(e, i) && #[trigger] e[i] == '.' implies {
            &&& i + 1 < e.len()
            &&& e[i + 1] == '.'
        } by {
            if i < ef.len() {
                assert(after_crlf(ef, i) && ef[i] == '.');
            }
        }
    }
}

/// Text in which no dot comes directly after a CR LF is left as it is.
pub proof fn lemma_escaped_without_dots(s: Seq<char>)
    requires
        !has_dot_after_crlf(s),
    ensures
        escaped(s) == s,
    decreases s.len(),
{
    if s.len() > 0 {
        let front = s.drop_last();
        assert forall|i: int|
            0 <= i < front.len() && after_crlf(front, i) implies #[trigger] front[i] != '.' by {
            assert(after_crlf(s, i) && s[i] == front[i]);
        }
        lemma_escaped_without_dots(front);
        if s.last() == '.' && ends_with_crlf(front) {
            assert(after_crlf(s, s.len() - 1) && s[s.len() - 1] == '.');
        }
        assert(front.push(s.last()) =~= s);
    }
}

/// Undoing the doubling gives the text back, for every text that does not
/// itself begin with a dot. (A dot at the very start is not doubled, and the
/// receiving side would drop it.)
pub proof fn lemma_unescaped_escaped(s: Seq<char>)
    requires
        s.len() == 0 || s[0] != '.',
    ensures
        unescaped(escaped(s)) == s,
    decreases s.len(),
{
    if s.len() > 0 {
        let front = s.drop_last();
        let last = s.last();
        let ef = escaped(front);
        lemma_unescaped_escaped(front);
        lemma_escaped_ends(front);
        if last == '.' && ends_with_crlf(front) {
            let once = ef.push('.');
            let twice = once.push('.');
            assert(once.drop_last() =~= ef);
            assert(twice.drop_last() =~= once);
            assert(unescaped(once) == unescaped(ef));
            assert(!ends_with_crlf(once));
            assert(unescaped(twice) == unescaped(once).push('.'));
        } else {
            let e = ef.push(last);
            assert(e.drop_last() =~= ef);
            if last == '.' {
                assert(front.len() > 0);
                assert(!ends_with_crlf(ef));
            }
            assert(unescaped(e) == unescaped(ef).push(last));
        }
        assert(front.push(last) =~= s);
    }
}

/// A dot at the very start of a text is lost on the way: it is not doubled,
/// and the receiving side drops it.
pub proof fn lemma_unescaped_escaped_leading_dot(s: Seq<char>)
    requires
        s.len() > 0,
        s[0] == '.',
    ensures
        unescaped(escaped(s)) == s.skip(1),
        unescaped(escaped(s)) != s,
    decreases s.len(),
{
    let front = s.drop_last();
    let last = s.last();
    let ef = escaped(front);
    if front.len() == 0 {
        assert(ef =~= Seq::<char>::empty());
        let e = ef.push(last);
        assert(escaped(s) == e);
        assert(e.drop_last() =~= ef);
        assert(unescaped(ef) =~= ef);
        assert(unescaped(e) == unescaped(ef));
        assert(s.skip(1) =~= ef);
    } else {
        lemma_unescaped_escaped_leading_dot(front);
        lemma_escaped_ends(front);
        if last == '.' && ends_with_crlf(front) {
            let once = ef.push('.');
            let twice = once.push('.');
            assert(once.drop_last() =~= ef);
            assert(twice.drop_last() =~= once);
            assert(unescaped(once) == unescaped(ef));
            assert(!ends_with_crlf(once));
            assert(unescaped(twice) == unescaped(once).push('.'));
        } else {
            let e = ef.push(last);
            assert(e.drop_last() =~= ef);
            assert(unescaped(e) == unescaped(ef).push(last));
        }
        assert(front.skip(1).push(last) =~= s.skip(1));
    }
}

/// The number of dots in `s` that come directly after a CR LF.
pub open spec fn dots_after_crlf(s: Seq<char>) -> nat
    decreases s.len(),
{
    if s.len() == 0 {
        0
    } else if s.last() == '.' && ends_with_crlf(s.drop_last()) {
        dots_after_crlf(s.drop_last()) + 1
    } else {
        dots_after_crlf(s.drop_last())
    }
}

/// A text has a dot directly after a CR LF exactly when the count of such
/// dots is not zero.
pub proof fn lemma_dots_after_crlf_positive(s: Seq<char>)
    ensures
        has_dot_after_crlf(s) <==> dots_after_crlf(s) > 0,
    decreases s.len(),
{
    if s.len() > 0 {
        let front = s.drop_last();
        lemma_dots_after_crlf_positive(front);
        if has_dot_after_crlf(front) {
            let i = choose|i: int|
                0 <= i < front.len() && after_crlf(front, i) && #[trigger] front[i] == '.';
            assert(after_crlf(s, i) && s[i] == '.');
        }
        if s.last() == '.' && ends_with_crlf(front) {
            assert(after_crlf(s, s.len() - 1) && s[s.len() - 1] == '.');
        }
        if has_dot_after_crlf(s) {
            let i = choose|i: int|
                0 <= i < s.len() && after_crlf(s, i) && #[trigger] s[i] == '.';
            if i < front.len() {
                assert(after_crlf(front, i) && front[i] == '.');
            }
        }
    }
}

/// Escaping makes a text longer by one character for each dot that comes
/// directly after a CR LF.
pub proof fn lemma_escaped_len(s: Seq<char>)
    ensures
        escaped(s).len() == s.len() + dots_after_crlf(s),
    decreases s.len(),
{
    if s.len() > 0 {
        lemma_escaped_len(s.drop_last());
    }
}

/// Escaped text has as many dots directly after a CR LF as the text it was
/// made from: of each doubled pair, the first.
pub proof fn lemma_escaped_keeps_dots(s: Seq<char>)
    ensures
        dots_after_crlf(escaped(s)) == dots_after_crlf(s),
    decreases s.len(),
{
    if s.len() > 0 {
        let front = s.drop_last();
        let last = s.last();
        let ef = escaped(front);
        lemma_escaped_keeps_dots(front);
        lemma_escaped_ends(front);
        if last == '.' && ends_with_crlf(front) {
            let once = ef.push('.');
            let twice = once.push('.');
            assert(once.drop_last() =~= ef);
            assert(twice.drop_last() =~= once);
            assert(dots_after_crlf(once) == dots_after_crlf(ef) + 1);
            assert(!ends_with_crlf(once));
            assert(dots_after_crlf(twice) == dots_after_crlf(once));
        } else {
            let e = ef.push(last);
            assert(e.drop_last() =~= ef);
            assert(dots_after_crlf(e) == dots_after_crlf(ef));
        }
    }
}

/// Escaping changes a text exactly when the text has a dot directly after a
/// CR LF.
pub proof fn lemma_escaped_changes(s: Seq<char>)
    ensures
        escaped(s) == s <==> !has_dot_after_crlf(s),
{
    lemma_dots_after_crlf_positive(s);
    lemma_escaped_len(s);
    if !has_dot_after_crlf(s) {
        lemma_escaped_without_dots(s);
    }
}

/// Escaping is not idempotent: a text that escaping changes is changed again
/// by a second escaping, which doubles the first dot of each pair once more.
pub proof fn lemma_escaped_twice(s: Seq<char>)
    requires
        has_dot_after_crlf(s),
    ensures
        escaped(escaped(s)) != escaped(s),
        escaped(escaped(s)).len() == s.len() + 2 * dots_after_crlf(s),
{
    lemma_dots_after_crlf_positive(s);
    lemma_escaped_len(s);
    lemma_escaped_keeps_dots(s);
    lemma_escaped_len(escaped(s));
}

} // verus!

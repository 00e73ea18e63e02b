//! The identifier codec: a signal name, optionally with a suffix, is
//! spelled bare when it is a simple identifier, and as an escaped,
//! space-terminated identifier otherwise.

use vstd::prelude::*;
use vstd::string::StrSliceExecFns;

use crate::model::{Signal, SignalDirection};

verus! {

/// A character that may start a simple identifier.
pub open spec fn is_simple_start(c: char) -> bool {
    ('a' as u32 <= c as u32 && c as u32 <= 'z' as u32) || ('A' as u32 <= c as u32 && c as u32
        <= 'Z' as u32) || c == '_'
}

/// A character that may continue a simple identifier.
pub open spec fn is_simple_follow(c: char) -> bool {
    is_simple_start(c) || ('0' as u32 <= c as u32 && c as u32 <= '9' as u32) || c == '$'
}

/// A simple identifier: a letter or underscore followed by letters,
/// digits, underscores or dollar signs.
pub open spec fn is_simple_name(s: Seq<char>) -> bool {
    &&& s.len() > 0
    &&& is_simple_start(s[0])
    &&& forall|i: int| 1 <= i < s.len() ==> is_simple_follow(#[trigger] s[i])
}

/// The view of an optional suffix.
pub open spec fn suffix_view(suffix: Option<&str>) -> Option<Seq<char>> {
    match suffix {
        Some(s) => Some(s@),
        None => None,
    }
}

pub open spec fn opt_seq(suffix: Option<Seq<char>>) -> Seq<char> {
    match suffix {
        Some(s) => s,
        None => Seq::empty(),
    }
}

/// Whether the pair spells bare: the name must be simple, and the
/// suffix, when present, must independently be simple too.
pub open spec fn spells_bare(name: Seq<char>, suffix: Option<Seq<char>>) -> bool {
    &&& is_simple_name(name)
    &&& (suffix matches Some(s) ==> is_simple_name(s))
}

/// The emitted identifier text: `name` then `suffix` when both are
/// simple; otherwise a leading backslash, the raw name and suffix, and
/// a delimiting space, since escaped identifiers are space-terminated
/// tokens.
pub open spec fn ident_text(name: Seq<char>, suffix: Option<Seq<char>>) -> Seq<char> {
    if spells_bare(name, suffix) {
        name + opt_seq(suffix)
    } else {
        seq!['\\'] + name + opt_seq(suffix) + seq![' ']
    }
}

/// An identifier about to be emitted: the raw name and an optional
/// suffix appended without separator.
pub struct VerilogIdentifier<'a> {
    pub identifier: &'a str,
    pub suffix: Option<&'a str>,
}

fn char_is_start(c: char) -> (b: bool)
    ensures
        b == is_simple_start(c),
{
    let u = c as u32;
    ('a' as u32 <= u && u <= 'z' as u32) || ('A' as u32 <= u && u <= 'Z' as u32) || c == '_'
}

fn char_is_follow(c: char) -> (b: bool)
    ensures
        b == is_simple_follow(c),
{
    let u = c as u32;
    char_is_start(c) || ('0' as u32 <= u && u <= '9' as u32) || c == '$'
}

/// Whether `s` is a simple identifier.
pub fn str_is_simple(s: &str) -> (b: bool)
    ensures
        b == is_simple_name(s@),
{
    let len = s.unicode_len();
    if len == 0 {
        return false;
    }
    if !char_is_start(s.get_char(0)) {
        return false;
    }
    let mut i: usize = 1;
    while i < len
        invariant
            1 <= i <= len,
            len == s@.len(),
            is_simple_start(s@[0]),
            forall|j: int| 1 <= j < i ==> is_simple_follow(#[trigger] s@[j]),
        decreases len - i,
    {
        if !char_is_follow(s.get_char(i)) {
            return false;
        }
        i = i + 1;
    }
    true
}

impl<'a> VerilogIdentifier<'a> {
    pub open spec fn spec_name(&self) -> Seq<char> {
        self.identifier@
    }

    pub open spec fn spec_suffix(&self) -> Option<Seq<char>> {
        suffix_view(self.suffix)
    }

    /// The emitted text of this identifier.
    pub open spec fn text(&self) -> Seq<char> {
        ident_text(self.spec_name(), self.spec_suffix())
    }

    /// An identifier spelled from a bare name.
    pub fn new(identifier: &'a str) -> (r: Self)
        ensures
            r.spec_name() == identifier@,
            r.spec_suffix() is None,
    {
        VerilogIdentifier { identifier, suffix: None }
    }

    /// An identifier with a suffix appended without separator.
    pub fn with_suffix(identifier: &'a str, suffix: &'a str) -> (r: Self)
        ensures
            r.spec_name() == identifier@,
            r.spec_suffix() == Some(suffix@),
    {
        VerilogIdentifier { identifier, suffix: Some(suffix) }
    }

    /// The harness-side spelling of the signal a row entry drives: a
    /// bidirectional signal is driven through its shadow register, so
    /// its name carries the reserved register suffix.
    pub fn from_input(signal: &'a Signal) -> (r: Self)
        ensures
            r.spec_name() == signal.name@,
            r.spec_suffix() == input_suffix(signal.direction),
    {
        let name = signal.name.as_str();
        if signal.is_bidirectional() {
            VerilogIdentifier::with_suffix(name, "_reg")
        } else {
            VerilogIdentifier::new(name)
        }
    }

    /// Renders the identifier: bare when simple, escaped otherwise.
    pub fn render(&self) -> (r: String)
        ensures
            r@ == self.text(),
    {
        let simple = str_is_simple(self.identifier) && (match self.suffix {
            Some(s) => str_is_simple(s),
            None => true,
        });
        let mut out = String::new();
        if simple {
            out.append(self.identifier);
            match self.suffix {
                Some(s) => out.append(s),
                None => (),
            }
            proof {
                assert(out@ =~= self.text());
            }
        } else {
            out.append("\\");
            out.append(self.identifier);
            match self.suffix {
                Some(s) => out.append(s),
                None => (),
            }
            out.append(" ");
            proof {
                reveal_strlit("\\");
                reveal_strlit(" ");
                assert("\\"@ =~= seq!['\\']);
                assert(" "@ =~= seq![' ']);
                assert(out@ =~= self.text());
            }
        }
        out
    }
}

/// The suffix the input spelling of a signal carries: the reserved
/// register suffix for a bidirectional signal, none otherwise.
pub open spec fn input_suffix(direction: SignalDirection) -> Option<Seq<char>> {
    if direction == SignalDirection::Bidirectional {
        Some("_reg"@)
    } else {
        None
    }
}

/// The first identifier token a Verilog reader takes from `s`: after a
/// leading backslash, everything up to a space; otherwise the longest
/// run of simple-identifier characters.
pub open spec fn scan_identifier(s: Seq<char>) -> Seq<char> {
    if s.len() > 0 && s[0] == '\\' {
        take_until_space(s.drop_first())
    } else {
        take_simple(s)
    }
}

pub open spec fn take_simple(s: Seq<char>) -> Seq<char>
    decreases s.len(),
{
    if s.len() == 0 || !is_simple_follow(s[0]) {
        Seq::empty()
    } else {
        seq![s[0]] + take_simple(s.drop_first())
    }
}

pub open spec fn take_until_space(s: Seq<char>) -> Seq<char>
    decreases s.len(),
{
    if s.len() == 0 || s[0] == ' ' {
        Seq::empty()
    } else {
        seq![s[0]] + take_until_space(s.drop_first())
    }
}

proof fn lemma_take_simple_all(s: Seq<char>)
    requires
        forall|i: int| 0 <= i < s.len() ==> is_simple_follow(#[trigger] s[i]),
    ensures
        take_simple(s) == s,
    decreases s.len(),
{
    if s.len() == 0 {
        assert(take_simple(s) =~= s);
    } else {
        lemma_take_simple_all(s.drop_first());
        assert(take_simple(s) =~= s);
    }
}

proof fn lemma_take_until_space_all(s: Seq<char>)
    requires
        forall|i: int| 0 <= i < s.len() ==> #[trigger] s[i] != ' ',
    ensures
        take_until_space(s + seq![' ']) == s,
    decreases s.len(),
{
    let t = s + seq![' '];
    if s.len() == 0 {
        assert(t[0] == ' ');
        assert(take_until_space(t) =~= s);
    } else {
        lemma_take_until_space_all(s.drop_first());
        assert(t.drop_first() =~= s.drop_first() + seq![' ']);
        assert(take_until_space(t) =~= seq![t[0]] + take_until_space(s.drop_first() + seq![' ']));
        assert(take_until_space(t) =~= s);
    }
}

/// Escaping loses nothing: for a name and suffix without spaces, the
/// emitted spelling, read back by a Verilog identifier tokenizer,
/// yields the name followed by the suffix — bare spellings scan as
/// themselves, and escaped spellings are delimited by the trailing
/// space.
pub proof fn lemma_ident_round_trip(name: Seq<char>, suffix: Option<Seq<char>>)
    requires
        forall|i: int| 0 <= i < name.len() ==> #[trigger] name[i] != ' ',
        suffix matches Some(s) ==> forall|i: int| 0 <= i < s.len() ==> #[trigger] s[i] != ' ',
    ensures
        scan_identifier(ident_text(name, suffix)) == name + opt_seq(suffix),
{
    let whole = name + opt_seq(suffix);
    if spells_bare(name, suffix) {
        assert(ident_text(name, suffix) =~= whole);
        assert(whole[0] == name[0]);
        assert(whole[0] != '\\');
        assert(forall|i: int| 0 <= i < whole.len() ==> is_simple_follow(#[trigger] whole[i])) by {
            assert(forall|i: int|
                0 <= i < whole.len() ==> #[trigger] whole[i] == if i < name.len() {
                    name[i]
                } else {
                    opt_seq(suffix)[i - name.len()]
                });
        }
        lemma_take_simple_all(whole);
    } else {
        let t = ident_text(name, suffix);
        assert(t =~= seq!['\\'] + whole + seq![' ']);
        assert(t[0] == '\\');
        assert(t.drop_first() =~= whole + seq![' ']);
        assert(forall|i: int| 0 <= i < whole.len() ==> #[trigger] whole[i] != ' ') by {
            assert(forall|i: int|
                0 <= i < whole.len() ==> #[trigger] whole[i] == if i < name.len() {
                    name[i]
                } else {
                    opt_seq(suffix)[i - name.len()]
                });
        }
        lemma_take_until_space_all(whole);
    }
}

} // verus!

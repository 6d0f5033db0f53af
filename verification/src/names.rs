//! Name legality: is a file or directory name acceptable on every platform?
//!
//! Two rules are held against a name, in this order, and the first one that
//! it breaks is reported:
//!
//! 1. A name must not end in a dot or a space.
//! 2. A name must not hold any of `< > : " / \ | ? *` or a control
//!    character, and must not be a reserved device name (`CON`, `PRN`, `AUX`,
//!    `NUL`, `COM0`..`COM9`, `LPT0`..`LPT9`, in any mix of upper and lower
//!    case), alone or followed by a dot and an extension.

use crate::component::{text_of, views, within, Component, ComponentKind, ComponentView};
use crate::failure::{about, agrees, Failure, FailureReason, FailureView};
use crate::policy::ValidationPolicy;
use crate::text::chars_of;
use vstd::prelude::*;
use vstd::slice::slice_subrange;

verus! {

/// The rule that a name breaks.
#[derive(Clone, Copy, Debug, PartialEq, Eq, Structural)]
pub enum NameRule {
    /// The name ends in a dot or a space.
    TrailingCharacter,
    /// The name holds a forbidden character or is a reserved device name.
    ForbiddenSequence,
}

/// A broken rule, and the part of the name that breaks it: the characters
/// from `start` up to, not including, `end`.
#[derive(Clone, Copy, Debug, PartialEq, Eq, Structural)]
pub struct NameViolation {
    pub rule: NameRule,
    pub start: usize,
    pub end: usize,
}

/// The mathematical model of a [`NameViolation`].
pub struct NameViolationView {
    pub rule: NameRule,
    pub start: int,
    pub end: int,
}

impl View for NameViolation {
    type V = NameViolationView;

    open spec fn view(&self) -> NameViolationView {
        NameViolationView { rule: self.rule, start: self.start as int, end: self.end as int }
    }
}

/// A character that no name may end in.
pub open spec fn is_illegal_at_end(c: char) -> bool {
    c == '.' || c == ' '
}

/// A control character: code points 0 to 31.
pub open spec fn is_control(c: char) -> bool {
    (c as u32) <= 0x1F
}

/// A character that no name may hold.
pub open spec fn is_forbidden_char(c: char) -> bool {
    ||| c == '<'
    ||| c == '>'
    ||| c == ':'
    ||| c == '"'
    ||| c == '/'
    ||| c == '\\'
    ||| c == '|'
    ||| c == '?'
    ||| c == '*'
    ||| is_control(c)
}

/// The position of the first forbidden character of `name` from `from` on;
/// the length of `name` where there is none.
pub open spec fn first_forbidden(name: Seq<char>, from: int) -> int
    decreases name.len() - from,
{
    if from < 0 || from >= name.len() {
        name.len() as int
    } else if is_forbidden_char(name[from]) {
        from
    } else {
        first_forbidden(name, from + 1)
    }
}

/// `c` is the letter given in upper and in lower case.
pub open spec fn is_letter(c: char, upper: char, lower: char) -> bool {
    c == upper || c == lower
}

/// `c` is one of the digits `0` to `9`.
pub open spec fn is_digit(c: char) -> bool {
    '0' <= c && c <= '9'
}

/// `name` starts with one of `CON`, `PRN`, `AUX`, `NUL`, in any case.
pub open spec fn starts_with_device_word(name: Seq<char>) -> bool {
    &&& name.len() >= 3
    &&& {
        ||| is_letter(name[0], 'C', 'c') && is_letter(name[1], 'O', 'o') && is_letter(
            name[2],
            'N',
            'n',
        )
        ||| is_letter(name[0], 'P', 'p') && is_letter(name[1], 'R', 'r') && is_letter(
            name[2],
            'N',
            'n',
        )
        ||| is_letter(name[0], 'A', 'a') && is_letter(name[1], 'U', 'u') && is_letter(
            name[2],
            'X',
            'x',
        )
        ||| is_letter(name[0], 'N', 'n') && is_letter(name[1], 'U', 'u') && is_letter(
            name[2],
            'L',
            'l',
        )
    }
}

/// `name` starts with `COM` or `LPT`, in any case, and a digit.
pub open spec fn starts_with_port_word(name: Seq<char>) -> bool {
    &&& name.len() >= 4
    &&& {
        ||| is_letter(name[0], 'C', 'c') && is_letter(name[1], 'O', 'o') && is_letter(
            name[2],
            'M',
            'm',
        )
        ||| is_letter(name[0], 'L', 'l') && is_letter(name[1], 'P', 'p') && is_letter(
            name[2],
            'T',
            't',
        )
    }
    &&& is_digit(name[3])
}

/// From position `k` on, `name` is at its end, or goes on with a dot and an
/// extension: at least one character, none of them a line feed.
pub open spec fn ends_or_extends_at(name: Seq<char>, k: int) -> bool {
    ||| name.len() == k
    ||| {
        &&& name.len() > k + 1
        &&& name[k] == '.'
        &&& forall|j: int| k < j < name.len() ==> name[j] != '\n'
    }
}

/// `name` is a reserved device name, alone or with an extension.
pub open spec fn is_reserved_name(name: Seq<char>) -> bool {
    ||| starts_with_device_word(name) && ends_or_extends_at(name, 3)
    ||| starts_with_port_word(name) && ends_or_extends_at(name, 4)
}

/// The first rule that `name` breaks, with the part of the name that breaks
/// it; `None` where the name is legal.
///
/// A trailing dot or space is reported as that one character. A reserved
/// device name is reported whole. Otherwise the first forbidden character is
/// reported.
pub open spec fn violation_of(name: Seq<char>) -> Option<NameViolationView> {
    let n = name.len() as int;
    let at = first_forbidden(name, 0);
    if n > 0 && is_illegal_at_end(name.last()) {
        Some(NameViolationView { rule: NameRule::TrailingCharacter, start: n - 1, end: n })
    } else if is_reserved_name(name) {
        Some(NameViolationView { rule: NameRule::ForbiddenSequence, start: 0, end: n })
    } else if at < n {
        Some(NameViolationView { rule: NameRule::ForbiddenSequence, start: at, end: at + 1 })
    } else {
        None
    }
}

/// `name` breaks none of the rules.
pub open spec fn is_legal_name(name: Seq<char>) -> bool {
    violation_of(name) is None
}

/// What a check of `name` under `policy` says: nothing is held against a
/// name where the policy does not enforce the rules.
pub open spec fn name_check_of(name: Seq<char>, policy: ValidationPolicy) -> Result<
    (),
    FailureView,
> {
    if !policy.enforce_cross_platform_names {
        Ok(())
    } else {
        match violation_of(name) {
            Some(v) => Err(about(FailureReason::IllegalName, name.subrange(v.start, v.end))),
            None => Ok(()),
        }
    }
}

/// The part of the path `s` that breaks a name rule first: of the `Normal`
/// components among `cs`, from left to right, the first that is not a legal
/// name gives the part that `violation_of` reports of it. `None` where every
/// name is legal.
pub open spec fn first_illegal_part(s: Seq<char>, cs: Seq<ComponentView>) -> Option<Seq<char>>
    decreases cs.len(),
{
    if cs.len() == 0 {
        None
    } else {
        let name = text_of(s, cs.first());
        if cs.first().kind == ComponentKind::Normal && violation_of(name) is Some {
            let v = violation_of(name).unwrap();
            Some(name.subrange(v.start, v.end))
        } else {
            first_illegal_part(s, cs.drop_first())
        }
    }
}

/// The first forbidden character is where `first_forbidden` says, and none
/// comes before it.
pub proof fn lemma_first_forbidden(name: Seq<char>, from: int)
    requires
        0 <= from <= name.len(),
    ensures
        from <= first_forbidden(name, from) <= name.len(),
        first_forbidden(name, from) < name.len() ==> is_forbidden_char(
            name[first_forbidden(name, from)],
        ),
        forall|j: int| from <= j < first_forbidden(name, from) ==> !is_forbidden_char(name[j]),
    decreases name.len() - from,
{
    if from < name.len() && !is_forbidden_char(name[from]) {
        lemma_first_forbidden(name, from + 1);
    }
}

/// Whether no name may end in `c`.
pub fn illegal_at_end(c: char) -> (b: bool)
    ensures
        b == is_illegal_at_end(c),
{
    c == '.' || c == ' '
}

/// Whether no name may hold `c`.
pub fn forbidden_char(c: char) -> (b: bool)
    ensures
        b == is_forbidden_char(c),
{
    c == '<' || c == '>' || c == ':' || c == '"' || c == '/' || c == '\\' || c == '|' || c == '?'
        || c == '*' || (c as u32) <= 0x1F
}

fn letter(c: char, upper: char, lower: char) -> (b: bool)
    ensures
        b == is_letter(c, upper, lower),
{
    c == upper || c == lower
}

fn device_word(name: &[char]) -> (b: bool)
    ensures
        b == starts_with_device_word(name@),
{
    name.len() >= 3 && ((letter(name[0], 'C', 'c') && letter(name[1], 'O', 'o') && letter(
        name[2],
        'N',
        'n',
    )) || (letter(name[0], 'P', 'p') && letter(name[1], 'R', 'r') && letter(name[2], 'N', 'n'))
        || (letter(name[0], 'A', 'a') && letter(name[1], 'U', 'u') && letter(name[2], 'X', 'x'))
        || (letter(name[0], 'N', 'n') && letter(name[1], 'U', 'u') && letter(name[2], 'L', 'l')))
}

fn port_word(name: &[char]) -> (b: bool)
    ensures
        b == starts_with_port_word(name@),
{
    name.len() >= 4 && ((letter(name[0], 'C', 'c') && letter(name[1], 'O', 'o') && letter(
        name[2],
        'M',
        'm',
    )) || (letter(name[0], 'L', 'l') && letter(name[1], 'P', 'p') && letter(name[2], 'T', 't')))
        && '0' <= name[3] && name[3] <= '9'
}

fn at_end_or_extension(name: &[char], k: usize) -> (b: bool)
    requires
        k <= name.len(),
    ensures
        b == ends_or_extends_at(name@, k as int),
{
    let n = name.len();
    if n == k {
        return true;
    }
    if n - k < 2 || name[k] != '.' {
        return false;
    }
    let mut j = k + 1;
    while j < n
        invariant
            k < j <= n,
            n == name.len(),
            forall|i: int| k < i < j ==> name@[i] != '\n',
        decreases n - j,
    {
        if name[j] == '\n' {
            return false;
        }
        j += 1;
    }
    true
}

/// Whether `name` is a reserved device name, alone or with an extension.
pub fn reserved_name(name: &[char]) -> (b: bool)
    ensures
        b == is_reserved_name(name@),
{
    (device_word(name) && at_end_or_extension(name, 3)) || (port_word(name)
        && at_end_or_extension(name, 4))
}

/// The first rule that `name` breaks, if it breaks one.
pub fn find_violation(name: &[char]) -> (r: Option<NameViolation>)
    ensures
        match r {
            Some(v) => violation_of(name@) == Some(v@) && v.start < v.end <= name.len(),
            None => violation_of(name@) is None,
        },
{
    let n = name.len();
    if n > 0 && illegal_at_end(name[n - 1]) {
        return Some(NameViolation { rule: NameRule::TrailingCharacter, start: n - 1, end: n });
    }
    if reserved_name(name) {
        assert(n >= 3);
        return Some(NameViolation { rule: NameRule::ForbiddenSequence, start: 0, end: n });
    }
    let mut i: usize = 0;
    while i < n
        invariant
            i <= n,
            n == name.len(),
            !(n > 0 && is_illegal_at_end(name@.last())),
            !is_reserved_name(name@),
            first_forbidden(name@, 0) == first_forbidden(name@, i as int),
        decreases n - i,
    {
        if forbidden_char(name[i]) {
            return Some(
                NameViolation { rule: NameRule::ForbiddenSequence, start: i, end: i + 1 },
            );
        }
        i += 1;
    }
    None
}

/// Looks for the first name among the components of a path that breaks a
/// rule, and says where in the path the part that breaks it stands.
pub fn find_illegal_component(s: &[char], cs: &[Component]) -> (r: Option<(usize, usize)>)
    requires
        within(cs@, s.len() as int),
    ensures
        match r {
            Some((from, to)) => from < to <= s.len() && first_illegal_part(s@, views(cs@))
                == Some(s@.subrange(from as int, to as int)),
            None => first_illegal_part(s@, views(cs@)) is None,
        },
{
    let n = cs.len();
    let mut i: usize = 0;
    assert(views(cs@).skip(0) =~= views(cs@));
    while i < n
        invariant
            i <= n,
            n == cs.len(),
            within(cs@, s.len() as int),
            first_illegal_part(s@, views(cs@)) == first_illegal_part(
                s@,
                views(cs@).skip(i as int),
            ),
        decreases n - i,
    {
        let c = cs[i];
        assert(views(cs@).skip(i as int).first() == c@);
        assert(views(cs@).skip(i as int).drop_first() =~= views(cs@).skip(i + 1));
        if c.kind == ComponentKind::Normal {
            match find_violation(slice_subrange(s, c.start, c.end)) {
                Some(v) => {
                    assert(text_of(s@, c@).subrange(v.start as int, v.end as int) =~= s@.subrange(
                        c.start + v.start,
                        c.start + v.end,
                    ));
                    return Some((c.start + v.start, c.start + v.end));
                },
                None => {},
            }
        }
        i += 1;
    }
    None
}

/// Checks one name against the cross-platform rules.
///
/// Under a policy that does not enforce them every name passes. Otherwise
/// the name fails with `IllegalName` exactly where it breaks a rule, and the
/// failure carries the part of the name that breaks the first such rule.
pub fn check_name(name: &str, policy: ValidationPolicy) -> (r: Result<(), Failure>)
    ensures
        agrees(r, name_check_of(name@, policy)),
{
    if !policy.enforce_cross_platform_names {
        return Ok(());
    }
    let chars = chars_of(name);
    match find_violation(chars.as_slice()) {
        None => Ok(()),
        Some(v) => {
            let part = name.substring_char(v.start, v.end);
            Err(Failure::with_text(FailureReason::IllegalName, part.to_owned()))
        },
    }
}

} // verus!

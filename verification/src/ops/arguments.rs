//! What an operator types: named arguments and the reasons for an action.

use crate::text::{chars_of, trim, trimmed};
use vstd::prelude::*;

verus! {

/// What is wrong with the arguments of a command.
#[derive(Debug, PartialEq, Eq)]
pub enum ArgumentError {
    /// An argument that the command needs is not there.
    Missing(String),
    /// The reason for an action is blank.
    EmptyNote,
}

impl ArgumentError {
    /// The message shown to an operator.
    pub open spec fn text(self) -> Seq<char> {
        match self {
            ArgumentError::Missing(name) => "error: "@ + name@ + " is required"@,
            ArgumentError::EmptyNote =>
                "error: --note must not be empty — every operator action is audited"@,
        }
    }

    /// The message shown to an operator.
    pub fn message(&self) -> (m: String)
        ensures
            m@ == self.text(),
    {
        match self {
            ArgumentError::Missing(name) => {
                let mut out: String = String::from_str("error: ");
                out.append(name.as_str());
                out.append(" is required");
                out
            },
            ArgumentError::EmptyNote => String::from_str(
                "error: --note must not be empty — every operator action is audited",
            ),
        }
    }
}

/// The place of the first argument that reads `name`, or the number of
/// arguments where none does.
pub open spec fn place_of(args: Seq<String>, name: Seq<char>) -> nat
    decreases args.len(),
{
    if args.len() == 0 || args[0]@ == name {
        0
    } else {
        1 + place_of(args.drop_first(), name)
    }
}

/// The argument that follows the first one that reads `name`.
pub open spec fn argument(args: Seq<String>, name: Seq<char>) -> Option<String> {
    let place = place_of(args, name) as int;
    if place + 1 < args.len() {
        Some(args[place + 1])
    } else {
        None
    }
}

/// The value of a named argument.
pub fn arg(args: &[String], name: &str) -> (value: Option<String>)
    ensures
        value == argument(args@, name@),
{
    let wanted: String = String::from_str(name);
    let mut i: usize = 0;
    assert(args@.skip(0) =~= args@);
    while i < args.len() && args[i] != wanted
        invariant
            wanted@ == name@,
            i <= args@.len(),
            place_of(args@, name@) == i + place_of(args@.skip(i as int), name@),
        decreases args@.len() - i,
    {
        assert(args@.skip(i as int).drop_first() =~= args@.skip(i + 1));
        i = i + 1;
    }
    if i < args.len() && i + 1 < args.len() {
        Some(args[i + 1].clone())
    } else {
        None
    }
}

/// The value of an argument that a command needs.
pub fn require(args: &[String], name: &str) -> (value: Result<String, ArgumentError>)
    ensures
        match value {
            Ok(v) => argument(args@, name@) == Some(v),
            Err(e) => argument(args@, name@) is None && (e matches ArgumentError::Missing(n) && n@
                == name@),
        },
{
    match arg(args, name) {
        Some(value) => Ok(value),
        None => Err(ArgumentError::Missing(String::from_str(name))),
    }
}

/// The reason for an action. An action without a recorded reason cannot be
/// told from an intrusion later, so a blank one is refused.
pub fn require_note(args: &[String]) -> (note: Result<String, ArgumentError>)
    ensures
        match note {
            Ok(v) => argument(args@, "--note"@) == Some(v) && trimmed(v@).len() > 0,
            Err(ArgumentError::Missing(n)) => argument(args@, "--note"@) is None && n@
                == "--note"@,
            Err(ArgumentError::EmptyNote) => argument(args@, "--note"@) matches Some(v) && trimmed(
                v@,
            ).len() == 0,
        },
{
    match require(args, "--note") {
        Ok(note) => {
            let chars: Vec<char> = chars_of(note.as_str());
            if trim(chars.as_slice()).len() == 0 {
                Err(ArgumentError::EmptyNote)
            } else {
                Ok(note)
            }
        },
        Err(e) => Err(e),
    }
}

proof fn lemma_place_of(args: Seq<String>, name: Seq<char>)
    ensures
        0 <= place_of(args, name) <= args.len(),
        place_of(args, name) < args.len() ==> args[place_of(args, name) as int]@ == name,
        forall|i: int| 0 <= i < place_of(args, name) ==> (#[trigger] args[i])@ != name,
    decreases args.len(),
{
    if args.len() > 0 && args[0]@ != name {
        let rest = args.drop_first();
        lemma_place_of(rest, name);
        assert forall|i: int| 0 <= i < place_of(args, name) implies (#[trigger] args[i])@
            != name by {
            if i > 0 {
                assert(args[i] == rest[i - 1]);
            }
        }
    }
}

/// The value of an argument is what stands behind the first mention of its name,
/// and there is none where the name is not mentioned or stands last.
pub proof fn an_argument_is_what_follows_its_name(args: Seq<String>, name: Seq<char>, at: int)
    requires
        0 <= at < args.len(),
        args[at]@ == name,
        forall|i: int| 0 <= i < at ==> (#[trigger] args[i])@ != name,
    ensures
        at + 1 < args.len() ==> argument(args, name) == Some(args[at + 1]),
        at + 1 == args.len() ==> argument(args, name) is None,
{
    lemma_place_of(args, name);
    let place = place_of(args, name) as int;
    if place < at {
        assert(args[place]@ != name);
    }
    if at < place {
        assert(args[at]@ != name);
    }
}

/// An argument that is not mentioned has no value.
pub proof fn an_argument_that_is_not_mentioned_has_no_value(args: Seq<String>, name: Seq<char>)
    requires
        forall|i: int| 0 <= i < args.len() ==> (#[trigger] args[i])@ != name,
    ensures
        argument(args, name) is None,
{
    lemma_place_of(args, name);
}

/// An action goes on exactly where its reason is given and is not blank.
pub proof fn an_action_needs_a_reason(args: &[String], note: Result<String, ArgumentError>)
    requires
        call_ensures(require_note, (args,), note),
    ensures
        note is Ok <==> (argument(args@, "--note"@) matches Some(v) && trimmed(v@).len() > 0),
        note matches Ok(v) ==> argument(args@, "--note"@) == Some(v),
        (note matches Err(ArgumentError::Missing(_))) <==> argument(args@, "--note"@) is None,
{
}

} // verus!

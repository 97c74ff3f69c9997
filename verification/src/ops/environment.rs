//! Configuration from the environment.
//!
//! No security decision has a default: a value that bounds exposure is either
//! stated or the process does not start.

use crate::glc::hex::HexError;
use crate::text::{
    lemma_shows_at_the_ends, lemma_shows_going_on, lemma_shows_within, number_read, parse_number,
    shows, NumberError,
};
use vstd::prelude::*;

verus! {

/// The variables of a process.
#[derive(Debug, PartialEq, Eq)]
pub struct Environment {
    pub vars: Vec<(String, String)>,
}

/// The value of a variable.
pub open spec fn value_in(vars: Seq<(String, String)>, name: Seq<char>) -> Option<String>
    decreases vars.len(),
{
    if vars.len() == 0 {
        None
    } else if vars[0].0@ == name {
        Some(vars[0].1)
    } else {
        value_in(vars.drop_first(), name)
    }
}

/// The kind of number that a variable has to hold.
#[derive(Debug, Clone, Copy, PartialEq, Eq, Structural)]
pub enum NumberKind {
    U8,
    U32,
    U64,
    I64,
    Usize,
}

impl NumberKind {
    pub open spec fn max(self) -> nat {
        match self {
            NumberKind::U8 => u8::MAX as nat,
            NumberKind::U32 => u32::MAX as nat,
            NumberKind::U64 => u64::MAX as nat,
            NumberKind::I64 => i64::MAX as nat,
            NumberKind::Usize => usize::MAX as nat,
        }
    }

    pub open spec fn name(self) -> Seq<char> {
        match self {
            NumberKind::U8 => "u8"@,
            NumberKind::U32 => "u32"@,
            NumberKind::U64 => "u64"@,
            NumberKind::I64 => "i64"@,
            NumberKind::Usize => "usize"@,
        }
    }
}

/// What is wrong with the configuration.
#[derive(Debug, PartialEq, Eq)]
pub enum ConfigError {
    Missing(String),
    NotANumber { name: String, kind: NumberKind, why: NumberError },
    /// A number that cannot be read, without the name of its variable.
    BadNumber(NumberError),
    NotAKey { name: String, why: String },
    /// The variable does not hold 32 bytes in hexadecimal.
    NotHex { name: String, why: HexError },
    /// One of the two settings of the rolling window is there without the
    /// other.
    HalfAWindow,
}

/// What is wrong with the configuration, in terms of the variable's name.
pub enum ConfigFault {
    Missing(Seq<char>),
    NotANumber(Seq<char>, NumberKind, NumberError),
    BadNumber(NumberError),
    NotAKey(Seq<char>, Seq<char>),
    NotHex(Seq<char>, HexError),
    HalfAWindow,
}

impl View for ConfigError {
    type V = ConfigFault;

    open spec fn view(&self) -> ConfigFault {
        match self {
            ConfigError::Missing(name) => ConfigFault::Missing(name@),
            ConfigError::NotANumber { name, kind, why } => ConfigFault::NotANumber(
                name@,
                *kind,
                *why,
            ),
            ConfigError::BadNumber(why) => ConfigFault::BadNumber(*why),
            ConfigError::NotAKey { name, why } => ConfigFault::NotAKey(name@, why@),
            ConfigError::NotHex { name, why } => ConfigFault::NotHex(name@, *why),
            ConfigError::HalfAWindow => ConfigFault::HalfAWindow,
        }
    }
}

impl ConfigFault {
    /// The message shown to an operator.
    pub open spec fn text(self) -> Seq<char> {
        match self {
            ConfigFault::Missing(name) => "required environment variable "@ + name + " is not set"@,
            ConfigFault::NotANumber(name, kind, why) => name + " must be a "@ + kind.name() + ": "@
                + why.text(),
            ConfigFault::BadNumber(why) => why.text(),
            ConfigFault::NotAKey(name, why) => name + " is not a pubkey: "@ + why,
            ConfigFault::NotHex(name, why) => name + " is not 32 hex bytes: "@ + why.text(),
            ConfigFault::HalfAWindow =>
                "GLC_ROLLING_WINDOW_SECONDS and GLC_ROLLING_WINDOW_CAP_ATOMIC must be set together"@,
        }
    }
}

impl ConfigError {
    /// The message shown to an operator.
    pub fn message(&self) -> (m: String)
        ensures
            m@ == self@.text(),
    {
        let mut out: String = String::new();
        match self {
            ConfigError::Missing(name) => {
                out.append("required environment variable ");
                out.append(name.as_str());
                out.append(" is not set");
            },
            ConfigError::NotANumber { name, kind, why } => {
                out.append(name.as_str());
                out.append(" must be a ");
                match kind {
                    NumberKind::U8 => {
                        out.append("u8");
                    },
                    NumberKind::U32 => {
                        out.append("u32");
                    },
                    NumberKind::U64 => {
                        out.append("u64");
                    },
                    NumberKind::I64 => {
                        out.append("i64");
                    },
                    NumberKind::Usize => {
                        out.append("usize");
                    },
                }
                out.append(": ");
                out.append(why.message());
            },
            ConfigError::BadNumber(why) => {
                out.append(why.message());
            },
            ConfigError::NotAKey { name, why } => {
                out.append(name.as_str());
                out.append(" is not a pubkey: ");
                out.append(why.as_str());
            },
            ConfigError::NotHex { name, why } => {
                out.append(name.as_str());
                out.append(" is not 32 hex bytes: ");
                out.append(why.message().as_str());
            },
            ConfigError::HalfAWindow => {
                out.append(
                    "GLC_ROLLING_WINDOW_SECONDS and GLC_ROLLING_WINDOW_CAP_ATOMIC must be set together",
                );
            },
        }
        assert(out@ =~= self@.text());
        out
    }
}

/// The text of a variable that has to be there.
pub open spec fn required(vars: Seq<(String, String)>, name: Seq<char>) -> Result<
    String,
    ConfigFault,
> {
    match value_in(vars, name) {
        Some(value) => Ok(value),
        None => Err(ConfigFault::Missing(name)),
    }
}

/// The number that a text spells, or what is wrong with the variable.
pub open spec fn number(text: Seq<char>, name: Seq<char>, kind: NumberKind) -> Result<
    nat,
    ConfigFault,
> {
    match number_read(text, kind.max()) {
        Ok(n) => Ok(n),
        Err(why) => Err(ConfigFault::NotANumber(name, kind, why)),
    }
}

/// The number in a variable that has to be there.
pub open spec fn required_number(
    vars: Seq<(String, String)>,
    name: Seq<char>,
    kind: NumberKind,
) -> Result<nat, ConfigFault> {
    match value_in(vars, name) {
        Some(value) => number(value@, name, kind),
        None => Err(ConfigFault::Missing(name)),
    }
}

/// The number in a variable that has to be there, where it is kept as another
/// kind than it is read as: one that does not fit is refused, not cut off.
pub open spec fn required_fitting(
    vars: Seq<(String, String)>,
    name: Seq<char>,
    kind: NumberKind,
) -> Result<nat, ConfigFault> {
    match required_number(vars, name, NumberKind::U64) {
        Ok(n) => if n <= kind.max() {
            Ok(n)
        } else {
            Err(ConfigFault::NotANumber(name, kind, NumberError::TooLarge))
        },
        Err(e) => Err(e),
    }
}

/// The number in a variable, or a default where it is not there.
pub open spec fn number_or(
    vars: Seq<(String, String)>,
    name: Seq<char>,
    default: nat,
) -> Result<nat, ConfigFault> {
    match value_in(vars, name) {
        Some(value) => number(value@, name, NumberKind::U64),
        None => Ok(default),
    }
}

/// Whether a result is what the model says.
pub open spec fn is_text(
    result: Result<String, ConfigError>,
    model: Result<String, ConfigFault>,
) -> bool {
    match result {
        Ok(text) => model == Ok::<String, ConfigFault>(text),
        Err(e) => model == Err::<String, ConfigFault>(e@),
    }
}

/// Whether a result is what the model says.
pub open spec fn is_number(
    result: Result<u64, ConfigError>,
    model: Result<nat, ConfigFault>,
) -> bool {
    match result {
        Ok(n) => model == Ok::<nat, ConfigFault>(n as nat),
        Err(e) => model == Err::<nat, ConfigFault>(e@),
    }
}

fn read_number(text: &str, name: &str, kind: NumberKind) -> (value: Result<u64, ConfigError>)
    ensures
        is_number(value, number(text@, name@, kind)),
        value matches Ok(n) ==> n <= kind.max(),
{
    let max: u64 = match kind {
        NumberKind::U8 => 0xff,
        NumberKind::U32 => 0xffff_ffff,
        NumberKind::U64 => u64::MAX,
        NumberKind::I64 => 0x7fff_ffff_ffff_ffff,
        NumberKind::Usize => usize::MAX as u64,
    };
    match parse_number(text, max) {
        Ok(n) => Ok(n),
        Err(why) => Err(ConfigError::NotANumber { name: String::from_str(name), kind, why }),
    }
}

impl Environment {
    /// The value of a variable.
    pub fn get(&self, name: &str) -> (value: Option<String>)
        ensures
            value == value_in(self.vars@, name@),
    {
        let wanted: String = String::from_str(name);
        let mut i: usize = 0;
        assert(self.vars@.skip(0) =~= self.vars@);
        while i < self.vars.len()
            invariant
                wanted@ == name@,
                i <= self.vars@.len(),
                value_in(self.vars@, name@) == value_in(self.vars@.skip(i as int), name@),
            decreases self.vars@.len() - i,
        {
            if self.vars[i].0 == wanted {
                return Some(self.vars[i].1.clone());
            }
            assert(self.vars@.skip(i as int).drop_first() =~= self.vars@.skip(i + 1));
            i = i + 1;
        }
        None
    }

    /// The value of a variable that has to be there.
    pub fn env_required(&self, name: &str) -> (value: Result<String, ConfigError>)
        ensures
            is_text(value, required(self.vars@, name@)),
    {
        match self.get(name) {
            Some(value) => Ok(value),
            None => Err(ConfigError::Missing(String::from_str(name))),
        }
    }

    /// The number in a variable, or a default where it is not there.
    pub fn env_optional_u64(&self, name: &str, default: u64) -> (value: Result<u64, ConfigError>)
        ensures
            is_number(value, number_or(self.vars@, name@, default as nat)),
    {
        match self.get(name) {
            Some(value) => read_number(value.as_str(), name, NumberKind::U64),
            None => Ok(default),
        }
    }

    fn required_number(&self, name: &str, kind: NumberKind) -> (value: Result<u64, ConfigError>)
        ensures
            is_number(value, required_number(self.vars@, name@, kind)),
            value matches Ok(n) ==> n <= kind.max(),
    {
        match self.get(name) {
            Some(value) => read_number(value.as_str(), name, kind),
            None => Err(ConfigError::Missing(String::from_str(name))),
        }
    }

    /// The number in a variable that has to be there.
    pub fn env_required_u64(&self, name: &str) -> (value: Result<u64, ConfigError>)
        ensures
            is_number(value, required_number(self.vars@, name@, NumberKind::U64)),
    {
        self.required_number(name, NumberKind::U64)
    }

    /// The number in a variable that has to be there, where it fits what it is
    /// kept as.
    fn required_fitting(&self, name: &str, kind: NumberKind) -> (value: Result<u64, ConfigError>)
        ensures
            is_number(value, required_fitting(self.vars@, name@, kind)),
            value matches Ok(n) ==> n <= kind.max(),
    {
        let max: u64 = match kind {
            NumberKind::U8 => 0xff,
            NumberKind::U32 => 0xffff_ffff,
            NumberKind::U64 => u64::MAX,
            NumberKind::I64 => 0x7fff_ffff_ffff_ffff,
            NumberKind::Usize => usize::MAX as u64,
        };
        match self.required_number(name, NumberKind::U64) {
            Ok(n) => if n <= max {
                Ok(n)
            } else {
                Err(
                    ConfigError::NotANumber {
                        name: String::from_str(name),
                        kind,
                        why: NumberError::TooLarge,
                    },
                )
            },
            Err(e) => Err(e),
        }
    }

    /// The signed number in a variable that has to be there.
    pub fn env_required_i64(&self, name: &str) -> (value: Result<i64, ConfigError>)
        ensures
            match value {
                Ok(n) => n >= 0 && required_fitting(self.vars@, name@, NumberKind::I64) == Ok::<
                    nat,
                    ConfigFault,
                >(n as nat),
                Err(e) => required_fitting(self.vars@, name@, NumberKind::I64) == Err::<
                    nat,
                    ConfigFault,
                >(e@),
            },
    {
        match self.required_fitting(name, NumberKind::I64) {
            Ok(n) => Ok(n as i64),
            Err(e) => Err(e),
        }
    }

    /// The size in a variable that has to be there.
    pub fn env_required_usize(&self, name: &str) -> (value: Result<usize, ConfigError>)
        ensures
            match value {
                Ok(n) => required_fitting(self.vars@, name@, NumberKind::Usize) == Ok::<
                    nat,
                    ConfigFault,
                >(n as nat),
                Err(e) => required_fitting(self.vars@, name@, NumberKind::Usize) == Err::<
                    nat,
                    ConfigFault,
                >(e@),
            },
    {
        match self.required_fitting(name, NumberKind::Usize) {
            Ok(n) => Ok(n as usize),
            Err(e) => Err(e),
        }
    }

    /// The 32-bit number in a variable that has to be there.
    pub fn env_required_u32(&self, name: &str) -> (value: Result<u32, ConfigError>)
        ensures
            match value {
                Ok(n) => required_number(self.vars@, name@, NumberKind::U32) == Ok::<
                    nat,
                    ConfigFault,
                >(n as nat),
                Err(e) => required_number(self.vars@, name@, NumberKind::U32) == Err::<
                    nat,
                    ConfigFault,
                >(e@),
            },
    {
        match self.required_number(name, NumberKind::U32) {
            Ok(n) => Ok(n as u32),
            Err(e) => Err(e),
        }
    }

    /// The protocol version that the federation signs under.
    pub fn protocol_version_from_env(&self) -> (version: Result<u8, ConfigError>)
        ensures
            match version {
                Ok(n) => required_number(self.vars@, "GLC_PROTOCOL_VERSION"@, NumberKind::U8)
                    == Ok::<nat, ConfigFault>(n as nat),
                Err(e) => required_number(self.vars@, "GLC_PROTOCOL_VERSION"@, NumberKind::U8)
                    == Err::<nat, ConfigFault>(e@),
            },
    {
        match self.required_number("GLC_PROTOCOL_VERSION", NumberKind::U8) {
            Ok(n) => Ok(n as u8),
            Err(e) => Err(e),
        }
    }
}

/// A variable has the value that it is first given, and none where it is given
/// none.
pub proof fn a_variable_is_what_it_is_set_to(vars: Seq<(String, String)>, name: Seq<char>)
    ensures
        value_in(vars, name) is None <==> forall|i: int|
            0 <= i < vars.len() ==> (#[trigger] vars[i]).0@ != name,
        value_in(vars, name) matches Some(value) ==> exists|i: int|
            0 <= i < vars.len() && (#[trigger] vars[i]).0@ == name && vars[i].1 == value && forall|
                j: int,
            |
                0 <= j < i ==> (#[trigger] vars[j]).0@ != name,
    decreases vars.len(),
{
    if vars.len() > 0 {
        let rest = vars.drop_first();
        a_variable_is_what_it_is_set_to(rest, name);
        if vars[0].0@ == name {
            assert(vars[0].1 == value_in(vars, name)->0);
        } else {
            if value_in(rest, name) is Some {
                let i = choose|i: int|
                    0 <= i < rest.len() && (#[trigger] rest[i]).0@ == name && rest[i].1
                        == value_in(rest, name)->0 && forall|j: int|
                        0 <= j < i ==> (#[trigger] rest[j]).0@ != name;
                assert(vars[i + 1] == rest[i]);
                assert forall|j: int| 0 <= j < i + 1 implies (#[trigger] vars[j]).0@ != name by {
                    if j > 0 {
                        assert(vars[j] == rest[j - 1]);
                    }
                }
            } else {
                assert forall|i: int| 0 <= i < vars.len() implies (#[trigger] vars[i]).0@
                    != name by {
                    if i > 0 {
                        assert(vars[i] == rest[i - 1]);
                    }
                }
            }
        }
    }
}

/// A variable that has to be there is its text, or is missed by its name.
pub proof fn a_required_variable_is_its_text(
    vars: Seq<(String, String)>,
    name: Seq<char>,
    result: Result<String, ConfigError>,
)
    requires
        is_text(result, required(vars, name)),
    ensures
        result matches Ok(text) ==> value_in(vars, name) == Some(text),
        result matches Err(e) ==> value_in(vars, name) is None && e@ == ConfigFault::Missing(name),
        result is Ok <==> value_in(vars, name) is Some,
{
}

/// A number that has to be there is read where it is digits that fit its kind,
/// and is refused by its name and kind where it is not. Each kind reaches as far
/// as its integers do.
pub proof fn a_required_number_is_its_digits(
    vars: Seq<(String, String)>,
    name: Seq<char>,
    kind: NumberKind,
    result: Result<u64, ConfigError>,
)
    requires
        is_number(result, required_number(vars, name, kind)),
    ensures
        result matches Ok(n) ==> (value_in(vars, name) matches Some(text) && number_read(
            text@,
            kind.max(),
        ) == Ok::<nat, NumberError>(n as nat)),
        result matches Err(e) ==> e@ == ConfigFault::Missing(name) && value_in(vars, name) is None
            || (value_in(vars, name) matches Some(text) && number_read(text@, kind.max()) is Err
            && e@ == ConfigFault::NotANumber(
            name,
            kind,
            number_read(text@, kind.max())->Err_0,
        )),
        kind == NumberKind::U8 ==> kind.max() == u8::MAX,
        kind == NumberKind::U32 ==> kind.max() == u32::MAX,
        kind == NumberKind::U64 ==> kind.max() == u64::MAX,
        kind == NumberKind::I64 ==> kind.max() == i64::MAX,
        kind == NumberKind::Usize ==> kind.max() == usize::MAX,
{
}

/// A number that is kept as another kind is read like any other number, and
/// refused as too large where it does not fit what it is kept as.
pub proof fn a_number_that_does_not_fit_is_refused(
    vars: Seq<(String, String)>,
    name: Seq<char>,
    kind: NumberKind,
    text: String,
)
    requires
        value_in(vars, name) == Some(text),
    ensures
        required_fitting(vars, name, kind) is Ok <==> (number_read(text@, u64::MAX as nat)
            matches Ok(n) && n <= kind.max()),
        required_fitting(vars, name, kind) matches Ok(n) ==> number_read(text@, u64::MAX as nat)
            == Ok::<nat, NumberError>(n),
        required_fitting(vars, name, kind) matches Err(e) ==> (e == ConfigFault::NotANumber(
            name,
            kind,
            NumberError::TooLarge,
        ) || (number_read(text@, u64::MAX as nat) matches Err(why) && e == ConfigFault::NotANumber(
            name,
            NumberKind::U64,
            why,
        ))),
{
}

/// A number that need not be there is its default where it is not, and read like
/// any other where it is.
pub proof fn a_default_stands_in_only_for_what_is_missing(
    vars: Seq<(String, String)>,
    name: Seq<char>,
    default: nat,
)
    ensures
        value_in(vars, name) is None ==> number_or(vars, name, default) == Ok::<nat, ConfigFault>(
            default,
        ),
        value_in(vars, name) matches Some(text) ==> (number_or(vars, name, default) is Ok
            <==> number_read(text@, u64::MAX as nat) is Ok),
        value_in(vars, name) matches Some(text) ==> (number_or(vars, name, default) matches Ok(n)
            ==> number_read(text@, u64::MAX as nat) == Ok::<nat, NumberError>(n)),
{
}

/// What an operator reads of a setting names its variable, and says what is wrong
/// with what it holds.
pub proof fn a_bad_setting_is_named(
    name: Seq<char>,
    kind: NumberKind,
    why: NumberError,
    key: Seq<char>,
)
    ensures
        shows(ConfigFault::Missing(name).text(), name),
        shows(ConfigFault::NotANumber(name, kind, why).text(), name),
        shows(ConfigFault::NotANumber(name, kind, why).text(), kind.name()),
        shows(ConfigFault::NotANumber(name, kind, why).text(), why.text()),
        shows(ConfigFault::NotAKey(name, key).text(), name),
        shows(ConfigFault::NotAKey(name, key).text(), key),
{
    lemma_shows_within("required environment variable "@, name, " is not set"@);
    let kinds = name + " must be a "@ + kind.name();
    lemma_shows_at_the_ends(name, " must be a "@);
    lemma_shows_going_on(name + " must be a "@, name, kind.name());
    lemma_shows_at_the_ends(kind.name(), name + " must be a "@);
    lemma_shows_going_on(kinds, name, ": "@);
    lemma_shows_going_on(kinds, kind.name(), ": "@);
    lemma_shows_going_on(kinds + ": "@, name, why.text());
    lemma_shows_going_on(kinds + ": "@, kind.name(), why.text());
    lemma_shows_at_the_ends(why.text(), kinds + ": "@);
    lemma_shows_at_the_ends(name, " is not a pubkey: "@);
    lemma_shows_going_on(name + " is not a pubkey: "@, name, key);
    lemma_shows_at_the_ends(key, name + " is not a pubkey: "@);
}

} // verus!

//! The commands that make wallets display the wrapped coin, and that confirm
//! that they do.

use crate::ops::admin::AdminRefusal;
use crate::solana::instruction::{
    can_describe, create_token_metadata_call, try_create_token_metadata_instruction, try_update_token_metadata_instruction,
    update_token_metadata_call, Instruction, WRAPPED_GLC_NAME, WRAPPED_GLC_SYMBOL, WRAPPED_GLC_URI,
};
use crate::solana::pubkey::{key_text, Pubkey};
use crate::solana::rpc::{
    decode_token_metadata, says, token_metadata_in, BridgeConfigSnapshot, SolanaRpcError,
    TokenMetadataSnapshot,
};
use crate::text::{lemma_shows_at_the_ends, lemma_shows_going_on, quote, quoted, shows};
use crate::withdrawal::address::base58_text;
use vstd::prelude::*;

verus! {

/// The mint that the metadata belongs to.
pub fn metadata_mint(config: &BridgeConfigSnapshot) -> (mint: Result<Pubkey, AdminRefusal>)
    ensures
        mint == if config.wrapped_mint@ != Seq::new(32, |i: int| 0u8) {
            Ok(config.wrapped_mint)
        } else {
            Err(AdminRefusal::NoMint)
        },
{
    if config.mint_is_configured() {
        Ok(config.wrapped_mint)
    } else {
        Err(AdminRefusal::NoMint)
    }
}

/// The URI to write: the canonical one, unless another is stated. A stated
/// empty one is written as such.
pub fn wanted_uri(stated: Option<String>) -> (uri: String)
    ensures
        match stated {
            Some(s) => uri == s,
            None => uri@ == WRAPPED_GLC_URI@,
        },
{
    match stated {
        Some(uri) => uri,
        None => String::from_str(WRAPPED_GLC_URI),
    }
}

/// Whether an account holds metadata already.
pub open spec fn holds_metadata(account: Option<Seq<u8>>) -> bool {
    account matches Some(data) && data.len() > 0
}

/// What is done about an account that may hold metadata.
#[derive(Debug, PartialEq, Eq)]
pub enum MetadataStep {
    /// It is there; only read it back.
    Verify,
    Create(Instruction),
    /// An address that the call needs does not exist.
    NoAddress,
}

/// Decides whether the metadata has to be created. Metadata that exists is
/// never written, so the command can be run again to find out.
pub fn token_metadata(
    program_id: &Pubkey,
    admin: &Pubkey,
    mint: &Pubkey,
    uri: &str,
    existing: Option<&[u8]>,
) -> (step: MetadataStep)
    ensures
        match step {
            MetadataStep::Verify => holds_metadata(
                match existing {
                    Some(data) => Some(data@),
                    None => None,
                },
            ),
            MetadataStep::Create(ix) => {
                &&& !holds_metadata(
                    match existing {
                        Some(data) => Some(data@),
                        None => None,
                    },
                )
                &&& can_describe(program_id@, mint@)
                &&& ix@ == create_token_metadata_call(program_id@, admin@, mint@, uri@)
            },
            MetadataStep::NoAddress => {
                &&& !holds_metadata(
                    match existing {
                        Some(data) => Some(data@),
                        None => None,
                    },
                )
                &&& !can_describe(program_id@, mint@)
            },
        },
{
    match existing {
        Some(data) => {
            if data.len() > 0 {
                return MetadataStep::Verify;
            }
        },
        None => {},
    }
    match try_create_token_metadata_instruction(program_id, admin, mint, uri) {
        Some(ix) => MetadataStep::Create(ix),
        None => MetadataStep::NoAddress,
    }
}

/// One way in which metadata is not this bridge's.
#[derive(Debug, PartialEq, Eq)]
pub enum MetadataProblem {
    Name(String),
    Symbol(String),
    Mint { found: Pubkey, expected: Pubkey },
    UpdateAuthority { found: Pubkey, expected: Pubkey },
}

impl MetadataProblem {
    /// What the operator reads.
    pub open spec fn text(self) -> Seq<char> {
        match self {
            MetadataProblem::Name(found) => "name is "@ + quoted(found@) + ", expected "@ + quoted(
                WRAPPED_GLC_NAME@,
            ),
            MetadataProblem::Symbol(found) => "symbol is "@ + quoted(found@) + ", expected "@
                + quoted(WRAPPED_GLC_SYMBOL@),
            MetadataProblem::Mint { found, expected } => "metadata names mint "@ + base58_text(
                found@,
            ) + ", not "@ + base58_text(expected@),
            MetadataProblem::UpdateAuthority { found, expected } => "update authority is "@
                + base58_text(found@) + ", not the program's mint-authority PDA "@ + base58_text(
                expected@,
            ),
        }
    }

    /// What the operator reads.
    pub fn message(&self) -> (m: String)
        ensures
            m@ == self.text(),
    {
        let mut out: String = String::new();
        match self {
            MetadataProblem::Name(found) => {
                out.append("name is ");
                out.append(quote(found.as_str()).as_str());
                out.append(", expected ");
                out.append(quote(WRAPPED_GLC_NAME).as_str());
            },
            MetadataProblem::Symbol(found) => {
                out.append("symbol is ");
                out.append(quote(found.as_str()).as_str());
                out.append(", expected ");
                out.append(quote(WRAPPED_GLC_SYMBOL).as_str());
            },
            MetadataProblem::Mint { found, expected } => {
                out.append("metadata names mint ");
                out.append(key_text(found).as_str());
                out.append(", not ");
                out.append(key_text(expected).as_str());
            },
            MetadataProblem::UpdateAuthority { found, expected } => {
                out.append("update authority is ");
                out.append(key_text(found).as_str());
                out.append(", not the program's mint-authority PDA ");
                out.append(key_text(expected).as_str());
            },
        }
        assert(out@ =~= self.text());
        out
    }
}

/// Every way in which metadata is not this bridge's, in order.
pub open spec fn problems(
    m: TokenMetadataSnapshot,
    mint: Pubkey,
    mint_authority: Pubkey,
) -> Seq<MetadataProblem> {
    (if m.name@ != WRAPPED_GLC_NAME@ {
        seq![MetadataProblem::Name(m.name)]
    } else {
        seq![]
    }) + (if m.symbol@ != WRAPPED_GLC_SYMBOL@ {
        seq![MetadataProblem::Symbol(m.symbol)]
    } else {
        seq![]
    }) + (if m.mint@ != mint@ {
        seq![MetadataProblem::Mint { found: m.mint, expected: mint }]
    } else {
        seq![]
    }) + (if m.update_authority@ != mint_authority@ {
        seq![
            MetadataProblem::UpdateAuthority {
                found: m.update_authority,
                expected: mint_authority,
            },
        ]
    } else {
        seq![]
    })
}

/// Lists every way in which metadata is not this bridge's.
pub fn check_metadata(m: &TokenMetadataSnapshot, mint: &Pubkey, mint_authority: &Pubkey) -> (found: Vec<
    MetadataProblem,
>)
    ensures
        found@ == problems(*m, *mint, *mint_authority),
{
    let mut found: Vec<MetadataProblem> = Vec::new();
    let name: String = String::from_str(WRAPPED_GLC_NAME);
    if m.name != name {
        found.push(MetadataProblem::Name(m.name.clone()));
    }
    let symbol: String = String::from_str(WRAPPED_GLC_SYMBOL);
    if m.symbol != symbol {
        found.push(MetadataProblem::Symbol(m.symbol.clone()));
    }
    if !m.mint.same_as(mint) {
        found.push(MetadataProblem::Mint { found: m.mint, expected: *mint });
    }
    if !m.update_authority.same_as(mint_authority) {
        found.push(
            MetadataProblem::UpdateAuthority {
                found: m.update_authority,
                expected: *mint_authority,
            },
        );
    }
    assert(found@ =~= problems(*m, *mint, *mint_authority));
    found
}

/// Some problems, one to a line.
pub open spec fn listed(problems: Seq<MetadataProblem>) -> Seq<char>
    decreases problems.len(),
{
    if problems.len() == 0 {
        Seq::empty()
    } else {
        listed(problems.drop_last()) + "\n  - "@ + problems.last().text()
    }
}

/// What the operator reads of metadata that is not this bridge's.
pub fn problems_message(problems: &[MetadataProblem]) -> (m: String)
    ensures
        m@ == "the on-chain metadata is NOT what this bridge expects:"@ + listed(problems@),
{
    let mut out: String = String::from_str(
        "the on-chain metadata is NOT what this bridge expects:",
    );
    let ghost head = out@;
    let mut i: usize = 0;
    assert(head + listed(problems@.take(0)) =~= head);
    while i < problems.len()
        invariant
            i <= problems@.len(),
            out@ == head + listed(problems@.take(i as int)),
        decreases problems@.len() - i,
    {
        out.append("\n  - ");
        out.append(problems[i].message().as_str());
        i = i + 1;
        proof {
            let taken = problems@.take(i as int);
            assert(taken.drop_last() =~= problems@.take(i - 1));
            assert(out@ =~= head + listed(taken));
        }
    }
    assert(problems@.take(problems@.len() as int) =~= problems@);
    out
}

/// Why metadata that was read back is not accepted.
#[derive(Debug, PartialEq, Eq)]
pub enum MetadataFailure {
    Absent,
    Unreadable(SolanaRpcError),
    Wrong(Vec<MetadataProblem>),
}

/// Whether metadata that was read back is accepted, or refused, as it has to be.
pub open spec fn accepts_metadata(
    account: Option<Seq<u8>>,
    mint: Pubkey,
    mint_authority: Pubkey,
    result: Result<TokenMetadataSnapshot, MetadataFailure>,
) -> bool {
    match account {
        None => result == Err::<TokenMetadataSnapshot, MetadataFailure>(MetadataFailure::Absent),
        Some(data) => match (token_metadata_in(data), result) {
            (Err(text), Err(MetadataFailure::Unreadable(e))) => says(e, text),
            (Ok(fields), Ok(m)) => m@ == fields && problems(m, mint, mint_authority).len() == 0,
            (Ok(fields), Err(MetadataFailure::Wrong(found))) => found@.len() > 0 && exists|
                m: TokenMetadataSnapshot,
            |
                m@ == fields && found@ == #[trigger] problems(m, mint, mint_authority),
            _ => false,
        },
    }
}

/// Accepts metadata that was read back only if every part of it is this
/// bridge's.
pub fn verify_token_metadata(
    account: Option<&[u8]>,
    mint: &Pubkey,
    mint_authority: &Pubkey,
) -> (result: Result<TokenMetadataSnapshot, MetadataFailure>)
    ensures
        accepts_metadata(
            match account {
                Some(data) => Some(data@),
                None => None,
            },
            *mint,
            *mint_authority,
            result,
        ),
{
    match account {
        None => Err(MetadataFailure::Absent),
        Some(data) => match decode_token_metadata(data) {
            Err(e) => Err(MetadataFailure::Unreadable(e)),
            Ok(m) => {
                let found: Vec<MetadataProblem> = check_metadata(&m, mint, mint_authority);
                if found.len() == 0 {
                    Ok(m)
                } else {
                    assert(found@ == problems(m, *mint, *mint_authority));
                    Err(MetadataFailure::Wrong(found))
                }
            },
        },
    }
}

/// What the metadata is to read after an update.
#[derive(Debug, PartialEq, Eq)]
pub struct MetadataValues {
    pub name: String,
    pub symbol: String,
    pub uri: String,
}

/// A stated value, or the current one.
pub open spec fn kept_or(stated: Option<String>, current: String) -> String {
    match stated {
        Some(s) => s,
        None => current,
    }
}

fn keep_or(stated: Option<String>, current: &String) -> (value: String)
    ensures
        value == kept_or(stated, *current),
{
    match stated {
        Some(s) => s,
        None => current.clone(),
    }
}

/// The values after an update: what is not stated stays, so that moving the
/// URI cannot rename the token by accident.
pub fn updated_values(
    current: &TokenMetadataSnapshot,
    name: Option<String>,
    symbol: Option<String>,
    uri: Option<String>,
) -> (values: MetadataValues)
    ensures
        values == (MetadataValues {
            name: kept_or(name, current.name),
            symbol: kept_or(symbol, current.symbol),
            uri: kept_or(uri, current.uri),
        }),
{
    MetadataValues {
        name: keep_or(name, &current.name),
        symbol: keep_or(symbol, &current.symbol),
        uri: keep_or(uri, &current.uri),
    }
}

impl MetadataValues {
    /// Whether metadata reads like this.
    pub open spec fn shown_by(self, m: TokenMetadataSnapshot) -> bool {
        m.name@ == self.name@ && m.symbol@ == self.symbol@ && m.uri@ == self.uri@
    }

    /// Whether metadata reads like this.
    pub fn matches(&self, m: &TokenMetadataSnapshot) -> (same: bool)
        ensures
            same == self.shown_by(*m),
    {
        m.name == self.name && m.symbol == self.symbol && m.uri == self.uri
    }
}

/// What is done about an update.
#[derive(Debug, PartialEq, Eq)]
pub enum UpdateStep {
    /// The metadata already reads like this.
    Unchanged,
    Submit(Instruction),
    /// An address that the call needs does not exist.
    NoAddress,
}

/// Decides whether an update has to be submitted.
pub fn update_token_metadata(
    program_id: &Pubkey,
    admin: &Pubkey,
    mint: &Pubkey,
    current: &TokenMetadataSnapshot,
    values: &MetadataValues,
) -> (step: UpdateStep)
    ensures
        match step {
            UpdateStep::Unchanged => values.shown_by(*current),
            UpdateStep::Submit(ix) => !values.shown_by(*current) && can_describe(program_id@, mint@)
                && ix@ == update_token_metadata_call(
                program_id@,
                admin@,
                mint@,
                values.name@,
                values.symbol@,
                values.uri@,
            ),
            UpdateStep::NoAddress => !values.shown_by(*current) && !can_describe(program_id@, mint@),
        },
{
    if values.matches(current) {
        return UpdateStep::Unchanged;
    }
    match try_update_token_metadata_instruction(
        program_id,
        admin,
        mint,
        values.name.as_str(),
        values.symbol.as_str(),
        values.uri.as_str(),
    ) {
        Some(ix) => UpdateStep::Submit(ix),
        None => UpdateStep::NoAddress,
    }
}

/// Why an update that was read back is not accepted.
#[derive(Debug, PartialEq, Eq)]
pub enum UpdateFailure {
    /// The metadata does not read like the update.
    NotWritten,
    /// The metadata names another mint now.
    OtherMint,
}

/// Accepts an update only if the metadata reads like it and is still that of
/// the mint.
pub fn verify_update(after: &TokenMetadataSnapshot, values: &MetadataValues, mint: &Pubkey) -> (result:
    Result<(), UpdateFailure>)
    ensures
        result == if !values.shown_by(*after) {
            Err(UpdateFailure::NotWritten)
        } else if after.mint@ != mint@ {
            Err(UpdateFailure::OtherMint)
        } else {
            Ok(())
        },
{
    if !values.matches(after) {
        Err(UpdateFailure::NotWritten)
    } else if !after.mint.same_as(mint) {
        Err(UpdateFailure::OtherMint)
    } else {
        Ok(())
    }
}

/// An update without any stated value changes nothing, and an update that has
/// been written needs no second one.
pub proof fn an_update_is_idempotent(
    current: TokenMetadataSnapshot,
    after: TokenMetadataSnapshot,
    name: Option<String>,
    symbol: Option<String>,
    uri: Option<String>,
)
    ensures
        ({
            let unstated = MetadataValues {
                name: kept_or(None, current.name),
                symbol: kept_or(None, current.symbol),
                uri: kept_or(None, current.uri),
            };
            unstated.shown_by(current)
        }),
        ({
            let first = MetadataValues {
                name: kept_or(name, current.name),
                symbol: kept_or(symbol, current.symbol),
                uri: kept_or(uri, current.uri),
            };
            let second = MetadataValues {
                name: kept_or(name, after.name),
                symbol: kept_or(symbol, after.symbol),
                uri: kept_or(uri, after.uri),
            };
            first.shown_by(after) ==> second.shown_by(after)
        }),
{
}

/// Metadata is this bridge's exactly where its name, its symbol, its mint and
/// its authority all are, and everything that is not is listed.
pub proof fn metadata_is_right_only_in_every_respect(
    m: TokenMetadataSnapshot,
    mint: Pubkey,
    mint_authority: Pubkey,
)
    ensures
        problems(m, mint, mint_authority).len() == 0 <==> m.name@ == WRAPPED_GLC_NAME@ && m.symbol@
            == WRAPPED_GLC_SYMBOL@ && m.mint@ == mint@ && m.update_authority@ == mint_authority@,
        m.name@ != WRAPPED_GLC_NAME@ ==> problems(m, mint, mint_authority).contains(
            MetadataProblem::Name(m.name),
        ),
        m.symbol@ != WRAPPED_GLC_SYMBOL@ ==> problems(m, mint, mint_authority).contains(
            MetadataProblem::Symbol(m.symbol),
        ),
        m.mint@ != mint@ ==> problems(m, mint, mint_authority).contains(
            MetadataProblem::Mint { found: m.mint, expected: mint },
        ),
        m.update_authority@ != mint_authority@ ==> problems(m, mint, mint_authority).contains(
            MetadataProblem::UpdateAuthority {
                found: m.update_authority,
                expected: mint_authority,
            },
        ),
{
    let all = problems(m, mint, mint_authority);
    let a: int = if m.name@ != WRAPPED_GLC_NAME@ {
        1
    } else {
        0
    };
    let b: int = a + if m.symbol@ != WRAPPED_GLC_SYMBOL@ {
        1int
    } else {
        0int
    };
    let c: int = b + if m.mint@ != mint@ {
        1int
    } else {
        0int
    };
    if m.name@ != WRAPPED_GLC_NAME@ {
        assert(all[0] == MetadataProblem::Name(m.name));
    }
    if m.symbol@ != WRAPPED_GLC_SYMBOL@ {
        assert(all[a] == MetadataProblem::Symbol(m.symbol));
    }
    if m.mint@ != mint@ {
        assert(all[b] == MetadataProblem::Mint { found: m.mint, expected: mint });
    }
    if m.update_authority@ != mint_authority@ {
        assert(all[c] == MetadataProblem::UpdateAuthority {
            found: m.update_authority,
            expected: mint_authority,
        });
    }
}

/// Metadata is there exactly where its account is and holds anything.
pub proof fn an_empty_account_holds_no_metadata(data: Seq<u8>)
    ensures
        !holds_metadata(None),
        holds_metadata(Some(data)) <==> data.len() != 0,
{
}

/// Metadata reads like an update exactly where all three of its texts do, and
/// what is not stated is what it was.
pub proof fn an_update_changes_only_what_is_stated(
    values: MetadataValues,
    m: TokenMetadataSnapshot,
    stated: String,
    current: String,
)
    ensures
        values.shown_by(m) <==> values.name@ == m.name@ && values.symbol@ == m.symbol@
            && values.uri@ == m.uri@,
        kept_or(None, current) == current,
        kept_or(Some(stated), current) == stated,
{
}

/// The metadata belongs to the configured mint, and to none where there is none.
pub proof fn metadata_belongs_to_the_configured_mint(
    config: BridgeConfigSnapshot,
    mint: Result<Pubkey, AdminRefusal>,
)
    requires
        call_ensures(metadata_mint, (&config,), mint),
    ensures
        mint is Err <==> forall|i: int| 0 <= i < 32 ==> (#[trigger] config.wrapped_mint@[i]) == 0,
        mint matches Ok(key) ==> key == config.wrapped_mint,
        mint matches Err(e) ==> e == AdminRefusal::NoMint,
{
    if forall|i: int| 0 <= i < 32 ==> (#[trigger] config.wrapped_mint@[i]) == 0 {
        assert(config.wrapped_mint@ =~= Seq::new(32, |i: int| 0u8));
    }
}

/// A stated URI is written as it is, and the canonical one where none is.
pub proof fn a_stated_uri_is_written(stated: Option<String>, uri: String)
    requires
        call_ensures(wanted_uri, (stated,), uri),
    ensures
        stated matches Some(s) ==> uri == s,
        stated is None ==> uri@ == WRAPPED_GLC_URI@,
{
}

/// Metadata is created exactly where none is there yet and the addresses exist.
pub proof fn metadata_is_created_only_where_there_is_none(
    program_id: Pubkey,
    admin: Pubkey,
    mint: Pubkey,
    uri: &str,
    existing: Option<&[u8]>,
    step: MetadataStep,
)
    requires
        call_ensures(token_metadata, (&program_id, &admin, &mint, uri, existing), step),
    ensures
        step is Verify <==> (existing matches Some(data) && data@.len() > 0),
        step is Create <==> !(existing matches Some(data) && data@.len() > 0) && can_describe(
            program_id@,
            mint@,
        ),
        step matches MetadataStep::Create(ix) ==> ix@ == create_token_metadata_call(
            program_id@,
            admin@,
            mint@,
            uri@,
        ),
{
}

/// Metadata that is read back is accepted exactly where it is there, can be read,
/// and is this bridge's in every respect.
pub proof fn metadata_is_accepted_only_as_this_bridges(
    account: Option<Seq<u8>>,
    mint: Pubkey,
    mint_authority: Pubkey,
    result: Result<TokenMetadataSnapshot, MetadataFailure>,
)
    requires
        accepts_metadata(account, mint, mint_authority, result),
    ensures
        result is Ok <==> {
            &&& account matches Some(data)
            &&& token_metadata_in(data) matches Ok(fields)
            &&& fields.name == WRAPPED_GLC_NAME@
            &&& fields.symbol == WRAPPED_GLC_SYMBOL@
            &&& fields.mint == mint@
            &&& fields.update_authority == mint_authority@
        },
        result matches Ok(m) ==> (account matches Some(data) && token_metadata_in(data) == Ok::<
            _,
            Seq<char>,
        >(m@)),
        (result matches Err(MetadataFailure::Absent)) <==> account is None,
        (result matches Err(MetadataFailure::Unreadable(_))) <==> (account matches Some(data)
            && token_metadata_in(data) is Err),
{
    match result {
        Ok(m) => {
            metadata_is_right_only_in_every_respect(m, mint, mint_authority);
        },
        Err(MetadataFailure::Wrong(found)) => {
            let m = choose|m: TokenMetadataSnapshot|
                m@ == token_metadata_in(account->0)->Ok_0 && found@ == #[trigger] problems(
                    m,
                    mint,
                    mint_authority,
                );
            metadata_is_right_only_in_every_respect(m, mint, mint_authority);
        },
        _ => {},
    }
}

/// An update is submitted exactly where it changes something and the addresses
/// exist, and carries all three texts: those that are stated, and the others as
/// they are.
pub proof fn an_update_is_submitted_only_where_it_changes_something(
    program_id: Pubkey,
    admin: Pubkey,
    mint: Pubkey,
    current: TokenMetadataSnapshot,
    name: Option<String>,
    symbol: Option<String>,
    uri: Option<String>,
    values: MetadataValues,
    step: UpdateStep,
)
    requires
        call_ensures(updated_values, (&current, name, symbol, uri), values),
        call_ensures(update_token_metadata, (&program_id, &admin, &mint, &current, &values), step),
    ensures
        values.name == match name {
            Some(s) => s,
            None => current.name,
        },
        values.symbol == match symbol {
            Some(s) => s,
            None => current.symbol,
        },
        values.uri == match uri {
            Some(s) => s,
            None => current.uri,
        },
        step is Unchanged <==> values.name@ == current.name@ && values.symbol@ == current.symbol@
            && values.uri@ == current.uri@,
        !(step is Unchanged) ==> (step is Submit <==> can_describe(program_id@, mint@)),
        step matches UpdateStep::Submit(ix) ==> ix@ == update_token_metadata_call(
            program_id@,
            admin@,
            mint@,
            values.name@,
            values.symbol@,
            values.uri@,
        ),
{
}

/// An update is accepted exactly where the metadata reads like it and is still
/// that of the mint.
pub proof fn an_update_is_accepted_only_as_it_was_written(
    after: TokenMetadataSnapshot,
    values: MetadataValues,
    mint: Pubkey,
    result: Result<(), UpdateFailure>,
)
    requires
        call_ensures(verify_update, (&after, &values, &mint), result),
    ensures
        ({
            let written = after.name@ == values.name@ && after.symbol@ == values.symbol@
                && after.uri@ == values.uri@;
            &&& result is Ok <==> written && after.mint@ == mint@
            &&& result == Err::<(), _>(UpdateFailure::NotWritten) <==> !written
        }),
{
}

/// Every problem that was found is shown.
pub proof fn every_problem_is_shown(found: Seq<MetadataProblem>, i: int)
    requires
        0 <= i < found.len(),
    ensures
        shows(listed(found), found[i].text()),
    decreases found.len(),
{
    let front = found.drop_last();
    let before = listed(front) + "\n  - "@;
    if i == found.len() - 1 {
        lemma_shows_at_the_ends(found[i].text(), before);
    } else {
        every_problem_is_shown(front, i);
        lemma_shows_going_on(listed(front), found[i].text(), "\n  - "@);
        lemma_shows_going_on(before, found[i].text(), found.last().text());
    }
}

} // verus!

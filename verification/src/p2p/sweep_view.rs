//! What a validator will sign for a vault sweep.
//!
//! Two independent gates stand in front of a signature. The operator approved
//! this exact sweep: the staged commitment covers the source vault, the
//! destination script, the fee, the swept amount, and every outpoint and
//! amount being spent. And this validator has itself observed every input as
//! vault-owned: input amounts come from its own rows, never from the request.

use crate::bytes::same_bytes;
use crate::glc::hex;
use crate::glc::withdrawal_db::{sum_values, total_value, VaultUtxo};
use crate::hash::sha256;
use crate::text::{
    decimal, decimal_int, decimal_round_trips, find, i64_value, index_of, is_space,
    lemma_decimal, lemma_index_of_unique, lemma_shows_both, lemma_shows_going_on,
    lemma_shows_within, parse_i64, push_decimal, push_decimal_int, push_decimal_wide, shows,
    string_of, trim, trim_end, trimmed,
};
use crate::withdrawal::coin::{fee_for, saturate, saturating_product, tx_size};
use crate::withdrawal::config::WithdrawalConfig;
use crate::withdrawal::multisig::{PartialSignature, Transaction, TxInput};
use crate::withdrawal::sweep::{
    departs, internal_txid, outpoint_name, outpoint_text, p2sh_script, realises, spends_outpoint,
    sweep_fee, verify_sweep_tx, SweepError, SweepPlan, SWEEP_OUTPUT_COUNT,
};
use vstd::prelude::*;

verus! {

/// How long a staged sweep approval stays usable. A sweep's commitment pins
/// the exact set of outputs, so a stale approval stops matching as soon as the
/// vault receives anything.
pub const SWEEP_APPROVAL_TTL_SECONDS: i64 = 6 * 60 * 60;

/// A ceiling on the sweep fee, as a multiple of the policy fee for the same
/// shape. A guard against operator error: an approved plan whose fee field was
/// misread would donate vault funds to a miner.
pub const MAX_SWEEP_FEE_MULTIPLE: u64 = 10;

/// Why a validator does not sign a sweep.
#[derive(Debug, PartialEq, Eq)]
pub enum SweepRefusal {
    NotApproved,
    DifferentSweepApproved,
    ApprovalExpired { expiry: i64, now: i64 },
    AlreadySignedAnother,
    StoreUnreadable(String),
    Malformed(String),
    UnknownInput { index: usize, outpoint: String },
    PlanMismatch(String),
    FeeTooHigh { fee: u64, ceiling: u64 },
    OutputExceedsInputs,
    SigningFailed(String),
    MalformedPartial(String),
    DbUnreadable(String),
}

impl SweepRefusal {
    /// What the requester reads.
    pub open spec fn text(self) -> Seq<char> {
        match self {
            SweepRefusal::NotApproved =>
                "this validator's operator has not approved any sweep"@,
            SweepRefusal::DifferentSweepApproved =>
                "this validator's operator approved a DIFFERENT sweep"@,
            SweepRefusal::ApprovalExpired { expiry, now } => "the sweep approval expired at "@
                + decimal_int(expiry as int) + ", now "@ + decimal_int(now as int),
            SweepRefusal::AlreadySignedAnother =>
                "this validator has already signed a DIFFERENT sweep"@,
            SweepRefusal::StoreUnreadable(e) => "sweep approval store is unreadable: "@ + e@,
            SweepRefusal::Malformed(e) => "the proposed sweep transaction is malformed: "@ + e@,
            SweepRefusal::UnknownInput { index, outpoint } => "input "@ + decimal(index as nat)
                + " ("@ + outpoint@
                + ") is not an available vault output in this validator's own view"@,
            SweepRefusal::PlanMismatch(e) => "the proposed sweep does not match its plan: "@ + e@,
            SweepRefusal::FeeTooHigh { fee, ceiling } => "the sweep pays a "@ + decimal(fee as nat)
                + " fee, more than the "@ + decimal(ceiling as nat) + " ceiling for its shape"@,
            SweepRefusal::OutputExceedsInputs =>
                "the sweep output exceeds the value of its inputs"@,
            SweepRefusal::SigningFailed(e) => "signing on this validator's own node failed: "@
                + e@,
            SweepRefusal::MalformedPartial(e) =>
                "the node returned a malformed partial signature: "@ + e@,
            SweepRefusal::DbUnreadable(e) => "this validator's database is unreadable: "@ + e@,
        }
    }

    /// What the requester reads.
    pub fn message(&self) -> (m: String)
        ensures
            m@ == self.text(),
    {
        match self {
            SweepRefusal::NotApproved => String::from_str(
                "this validator's operator has not approved any sweep",
            ),
            SweepRefusal::DifferentSweepApproved => String::from_str(
                "this validator's operator approved a DIFFERENT sweep",
            ),
            SweepRefusal::ApprovalExpired { expiry, now } => {
                let mut m: String = String::from_str("the sweep approval expired at ");
                push_decimal_int(&mut m, *expiry);
                m.append(", now ");
                push_decimal_int(&mut m, *now);
                m
            },
            SweepRefusal::AlreadySignedAnother => String::from_str(
                "this validator has already signed a DIFFERENT sweep",
            ),
            SweepRefusal::StoreUnreadable(e) => {
                let mut m: String = String::from_str("sweep approval store is unreadable: ");
                m.append(e.as_str());
                m
            },
            SweepRefusal::Malformed(e) => {
                let mut m: String = String::from_str(
                    "the proposed sweep transaction is malformed: ",
                );
                m.append(e.as_str());
                m
            },
            SweepRefusal::UnknownInput { index, outpoint } => {
                let mut m: String = String::from_str("input ");
                push_decimal(&mut m, *index as u64);
                m.append(" (");
                m.append(outpoint.as_str());
                m.append(") is not an available vault output in this validator's own view");
                m
            },
            SweepRefusal::PlanMismatch(e) => {
                let mut m: String = String::from_str(
                    "the proposed sweep does not match its plan: ",
                );
                m.append(e.as_str());
                m
            },
            SweepRefusal::FeeTooHigh { fee, ceiling } => {
                let mut m: String = String::from_str("the sweep pays a ");
                push_decimal(&mut m, *fee);
                m.append(" fee, more than the ");
                push_decimal(&mut m, *ceiling);
                m.append(" ceiling for its shape");
                m
            },
            SweepRefusal::OutputExceedsInputs => String::from_str(
                "the sweep output exceeds the value of its inputs",
            ),
            SweepRefusal::SigningFailed(e) => {
                let mut m: String = String::from_str(
                    "signing on this validator's own node failed: ",
                );
                m.append(e.as_str());
                m
            },
            SweepRefusal::MalformedPartial(e) => {
                let mut m: String = String::from_str(
                    "the node returned a malformed partial signature: ",
                );
                m.append(e.as_str());
                m
            },
            SweepRefusal::DbUnreadable(e) => {
                let mut m: String = String::from_str(
                    "this validator's database is unreadable: ",
                );
                m.append(e.as_str());
                m
            },
        }
    }
}

/// One operator-staged sweep approval. At most one is ever in force; staging a
/// second replaces the first.
#[derive(Debug, PartialEq, Eq)]
pub struct SweepApproval {
    /// The whole sweep in 32 bytes: [`SweepPlan::commitment`].
    pub commitment: [u8; 32],
    pub expiry_unix: i64,
    /// Why the operator approved. Recorded for the audit trail.
    pub note: String,
}

/// What an approval says.
pub struct Approved {
    pub commitment: Seq<u8>,
    pub expiry: int,
    pub note: Seq<char>,
}

impl View for SweepApproval {
    type V = Approved;

    open spec fn view(&self) -> Approved {
        Approved {
            commitment: self.commitment@,
            expiry: self.expiry_unix as int,
            note: self.note@,
        }
    }
}

/// A text with every line feed replaced by a space.
pub open spec fn one_line(text: Seq<char>) -> Seq<char> {
    Seq::new(
        text.len(),
        |i: int|
            if text[i] == '\n' {
                ' '
            } else {
                text[i]
            },
    )
}

/// The stored form of an approval: commitment, expiry, note, one line.
pub open spec fn approval_text(a: Approved) -> Seq<char> {
    hex::hex_text(a.commitment) + " "@ + decimal_int(a.expiry) + " "@ + one_line(a.note) + "\n"@
}

/// What one line of the store says.
pub enum StoreLine {
    /// Nothing: the line is blank or a comment.
    Blank,
    Approval(Approved),
    /// The line cannot be read.
    Bad(Seq<char>),
}

/// Reads one line that has no white space at its ends.
pub open spec fn read_line(line: Seq<char>) -> StoreLine {
    let first = index_of(line, ' ');
    let rest = line.skip(first + 1);
    let second = index_of(rest, ' ');
    if line.len() == 0 || line[0] == '#' {
        StoreLine::Blank
    } else if !hex::is_hex(line.take(first)) || first != 64 {
        StoreLine::Bad("commitment is not 32 hex bytes"@)
    } else if first == line.len() {
        StoreLine::Bad("missing expiry"@)
    } else {
        match i64_value(rest.take(second)) {
            None => StoreLine::Bad("expiry is not an i64"@),
            Some(expiry) => StoreLine::Approval(
                Approved {
                    commitment: hex::hex_bytes(line.take(first)),
                    expiry,
                    note: if second == rest.len() {
                        Seq::empty()
                    } else {
                        rest.skip(second + 1)
                    },
                },
            ),
        }
    }
}

/// Reads a store from line `number` on: the last approval in it, or the first
/// line that cannot be read.
pub open spec fn read_store(text: Seq<char>, number: nat, found: Option<Approved>) -> Result<
    Option<Approved>,
    Seq<char>,
>
    decreases text.len(),
{
    let end = index_of(text, '\n');
    let last = end >= text.len() || end < 0;
    match read_line(trimmed(text.take(end))) {
        StoreLine::Bad(what) => Err("line "@ + decimal(number) + ": "@ + what),
        StoreLine::Blank => if last {
            Ok(found)
        } else {
            read_store(text.skip(end + 1), number + 1, found)
        },
        StoreLine::Approval(a) => if last {
            Ok(Some(a))
        } else {
            read_store(text.skip(end + 1), number + 1, Some(a))
        },
    }
}

/// What reading the approval file gave.
#[derive(Debug, PartialEq, Eq)]
pub enum StoreRead {
    /// There is no such file.
    Missing,
    Text(String),
    /// The file could not be read.
    Failed(String),
}

/// What one line of the store says, or why it cannot be read.
enum ParsedLine {
    Blank,
    Approval(SweepApproval),
    Bad(&'static str),
}

impl ParsedLine {
    spec fn says(self, line: StoreLine) -> bool {
        match self {
            ParsedLine::Blank => line is Blank,
            ParsedLine::Approval(a) => line == StoreLine::Approval(a@),
            ParsedLine::Bad(what) => line == StoreLine::Bad(what@),
        }
    }
}

fn parse_line(line: &[char]) -> (parsed: ParsedLine)
    ensures
        parsed.says(read_line(line@)),
{
    if line.len() == 0 || line[0] == '#' {
        return ParsedLine::Blank;
    }
    let first: usize = find(line, ' ');
    let commitment_text: &[char] = vstd::slice::slice_subrange(line, 0, first);
    assert(commitment_text@ =~= line@.take(first as int));
    let commitment: [u8; 32] = match hex::decode_chars(commitment_text) {
        Ok(bytes) => match hex::fixed::<32>(bytes.as_slice()) {
            Ok(commitment) => commitment,
            Err(_) => {
                return ParsedLine::Bad("commitment is not 32 hex bytes");
            },
        },
        Err(_) => {
            return ParsedLine::Bad("commitment is not 32 hex bytes");
        },
    };
    assert(first == 64);
    if first == line.len() {
        return ParsedLine::Bad("missing expiry");
    }
    let rest: &[char] = vstd::slice::slice_subrange(line, first + 1, line.len());
    assert(rest@ =~= line@.skip(first + 1));
    let second: usize = find(rest, ' ');
    let expiry_text: &[char] = vstd::slice::slice_subrange(rest, 0, second);
    assert(expiry_text@ =~= rest@.take(second as int));
    match parse_i64(expiry_text) {
        None => ParsedLine::Bad("expiry is not an i64"),
        Some(expiry_unix) => {
            let note: String = if second == rest.len() {
                String::new()
            } else {
                let note_text: &[char] = vstd::slice::slice_subrange(rest, second + 1, rest.len());
                assert(note_text@ =~= rest@.skip(second + 1));
                string_of(note_text)
            };
            ParsedLine::Approval(SweepApproval { commitment, expiry_unix, note })
        },
    }
}

impl SweepApproval {
    /// The stored form: `hex_commitment expiry note`, one line.
    ///
    /// Plain text, to be read by a human during an incident without tooling.
    pub fn to_text(&self) -> (text: String)
        ensures
            text@ == approval_text(self@),
    {
        let mut text: String = hex::encode(&self.commitment);
        text.append(" ");
        push_decimal_int(&mut text, self.expiry_unix);
        text.append(" ");
        let ghost head = text@;
        let note: Vec<char> = crate::text::chars_of(self.note.as_str());
        let mut i: usize = 0;
        while i < note.len()
            invariant
                note@ == self.note@,
                i <= note@.len(),
                text@ == head + one_line(self.note@).take(i as int),
            decreases note@.len() - i,
        {
            text.push(
                if note[i] == '\n' {
                    ' '
                } else {
                    note[i]
                },
            );
            i = i + 1;
            assert(text@ =~= head + one_line(self.note@).take(i as int));
        }
        assert(one_line(self.note@).take(note@.len() as int) =~= one_line(self.note@));
        text.append("\n");
        text
    }

    /// Parses the store, taking the **last** approval in it, so that an
    /// operator who appends a correction gets the correction.
    pub fn from_text(text: &str) -> (result: Result<Option<Self>, SweepRefusal>)
        ensures
            match read_store(text@, 1, None) {
                Ok(Some(a)) => result matches Ok(Some(found)) && found@ == a,
                Ok(None) => result matches Ok(None),
                Err(e) => result matches Err(SweepRefusal::StoreUnreadable(m)) && m@ == e,
            },
    {
        let chars: Vec<char> = crate::text::chars_of(text);
        let mut found: Option<SweepApproval> = None;
        let mut number: u128 = 1;
        let mut from: usize = 0;
        assert(text@.skip(0) =~= text@);
        loop
            invariant
                chars@ == text@,
                from <= chars@.len(),
                1 <= number <= from + 1,
                read_store(text@, 1, None) == read_store(
                    text@.skip(from as int),
                    number as nat,
                    match found {
                        Some(a) => Some(a@),
                        None => None,
                    },
                ),
            decreases chars@.len() - from,
        {
            let rest: &[char] = vstd::slice::slice_subrange(chars.as_slice(), from, chars.len());
            assert(rest@ =~= text@.skip(from as int));
            let end: usize = find(rest, '\n');
            let line: &[char] = trim(vstd::slice::slice_subrange(rest, 0, end));
            assert(rest@.subrange(0, end as int) =~= rest@.take(end as int));
            match parse_line(line) {
                ParsedLine::Bad(what) => {
                    let mut m: String = String::from_str("line ");
                    push_decimal_wide(&mut m, number);
                    m.append(": ");
                    m.append(what);
                    return Err(SweepRefusal::StoreUnreadable(m));
                },
                ParsedLine::Blank => {},
                ParsedLine::Approval(a) => {
                    found = Some(a);
                },
            }
            if end == rest.len() {
                return Ok(found);
            }
            assert(rest@.skip(end + 1) =~= text@.skip(from + end + 1));
            from = from + end + 1;
            number = number + 1;
        }
    }

    /// Reads the store, treating a missing file as **no approval**: a
    /// validator with nothing staged refuses every sweep.
    pub fn load(read: &StoreRead) -> (result: Result<Option<Self>, SweepRefusal>)
        ensures
            match *read {
                StoreRead::Missing => result matches Ok(None),
                StoreRead::Failed(e) => result matches Err(SweepRefusal::StoreUnreadable(m)) && m
                    == e,
                StoreRead::Text(text) => match read_store(text@, 1, None) {
                    Ok(Some(a)) => result matches Ok(Some(found)) && found@ == a,
                    Ok(None) => result matches Ok(None),
                    Err(e) => result matches Err(SweepRefusal::StoreUnreadable(m)) && m@ == e,
                },
            },
    {
        match read {
            StoreRead::Missing => Ok(None),
            StoreRead::Failed(e) => Err(SweepRefusal::StoreUnreadable(e.clone())),
            StoreRead::Text(text) => Self::from_text(text.as_str()),
        }
    }
}

/// A text that does not start with white space is only trimmed at its end.
proof fn lemma_trimmed_start(text: Seq<char>)
    requires
        text.len() > 0,
        !is_space(text[0]),
    ensures
        trimmed(text) == trim_end(text),
{
}

/// Trimming the end of a concatenation trims only its second part, where the
/// first does not end in white space.
proof fn lemma_trim_end_concat(a: Seq<char>, b: Seq<char>)
    requires
        a.len() > 0,
        !is_space(a.last()),
    ensures
        trim_end(a + b) == a + trim_end(b),
    decreases b.len(),
{
    if b.len() == 0 {
        assert(a + b =~= a);
        assert(a + trim_end(b) =~= a);
    } else {
        assert((a + b).last() == b.last());
        if is_space(b.last()) {
            assert((a + b).drop_last() =~= a + b.drop_last());
            lemma_trim_end_concat(a, b.drop_last());
        }
    }
}

/// The part of a stored approval in front of its note.
spec fn stored_head(a: Approved) -> Seq<char> {
    hex::hex_text(a.commitment) + " "@ + decimal_int(a.expiry)
}

/// What is left of a stored approval behind its head, once the line is trimmed.
spec fn stored_tail(note: Seq<char>) -> Seq<char> {
    if trim_end(note).len() == 0 {
        Seq::empty()
    } else {
        " "@ + trim_end(note)
    }
}

/// A stored approval is one line and an empty one.
proof fn lemma_stored_line(a: Approved)
    ensures
        ({
            let text = approval_text(a);
            let line = stored_head(a) + " "@ + one_line(a.note);
            &&& text.len() == line.len() + 1
            &&& index_of(text, '\n') == line.len()
            &&& text.take(line.len() as int) == line
            &&& text.skip(line.len() as int + 1) == Seq::<char>::empty()
        }),
{
    reveal_strlit(" ");
    reveal_strlit("\n");
    let text = approval_text(a);
    let hex_part = hex::hex_text(a.commitment);
    let expiry_part = decimal_int(a.expiry);
    let head = stored_head(a);
    let note = one_line(a.note);
    let line = head + " "@ + note;
    lemma_expiry_chars(a.expiry);
    lemma_hex_chars(a.commitment);
    assert(text =~= line + "\n"@);
    assert forall|i: int| 0 <= i < line.len() implies text[i] != '\n' by {
        if i < hex_part.len() {
            assert(text[i] == hex_part[i]);
        } else if i == hex_part.len() {
        } else if i < head.len() {
            assert(text[i] == expiry_part[i - hex_part.len() - 1]);
        } else if i == head.len() {
        } else {
            assert(text[i] == note[i - head.len() - 1]);
        }
    }
    lemma_index_of_unique(text, '\n', line.len() as int);
    assert(text.take(line.len() as int) =~= line);
    assert(text.skip(line.len() as int + 1) =~= Seq::<char>::empty());
}

/// Trimming a stored approval keeps its head, and the separator unless the
/// note goes with it.
proof fn lemma_stored_line_trims(a: Approved)
    requires
        a.commitment.len() == 32,
    ensures
        trimmed(stored_head(a) + " "@ + one_line(a.note)) == stored_head(a) + stored_tail(
            one_line(a.note),
        ),
{
    reveal_strlit(" ");
    let hex_part = hex::hex_text(a.commitment);
    let expiry_part = decimal_int(a.expiry);
    let head = stored_head(a);
    let note = one_line(a.note);
    let line = head + " "@ + note;
    lemma_expiry_chars(a.expiry);
    lemma_hex_chars(a.commitment);
    assert(line[0] == hex_part[0]);
    lemma_trimmed_start(line);
    assert(line =~= head + (" "@ + note));
    assert(head.last() == expiry_part.last());
    lemma_trim_end_concat(head, " "@ + note);
    if trim_end(note).len() == 0 {
        lemma_all_space(note);
        lemma_all_space_trims(" "@ + note);
        assert(trim_end(" "@ + note) =~= stored_tail(note));
    } else {
        lemma_trim_end_keeps_front(" "@, note);
    }
}

/// The trimmed line of a stored approval says what was stored.
proof fn lemma_stored_line_reads(a: Approved, note: Seq<char>)
    requires
        a.commitment.len() == 32,
        i64::MIN <= a.expiry <= i64::MAX,
    ensures
        read_line(stored_head(a) + stored_tail(note)) == StoreLine::Approval(
            Approved { commitment: a.commitment, expiry: a.expiry, note: trim_end(note) },
        ),
{
    reveal_strlit(" ");
    let hex_part = hex::hex_text(a.commitment);
    let expiry_part = decimal_int(a.expiry);
    let tail = stored_tail(note);
    let line = stored_head(a) + tail;
    hex::hex_text_round_trips(a.commitment);
    decimal_round_trips(a.expiry);
    lemma_expiry_chars(a.expiry);
    lemma_hex_chars(a.commitment);
    assert forall|i: int| 0 <= i < 64 implies line[i] != ' ' by {
        assert(line[i] == hex_part[i]);
    }
    assert(line[64] == ' ');
    lemma_index_of_unique(line, ' ', 64);
    assert(line.take(64) =~= hex_part);
    let rest = line.skip(65);
    assert(rest =~= expiry_part + tail);
    assert forall|i: int| 0 <= i < expiry_part.len() implies rest[i] != ' ' by {
        assert(rest[i] == expiry_part[i]);
    }
    lemma_index_of_unique(rest, ' ', expiry_part.len() as int);
    assert(rest.take(expiry_part.len() as int) =~= expiry_part);
    if trim_end(note).len() > 0 {
        assert(rest.skip(expiry_part.len() as int + 1) =~= trim_end(note));
    } else {
        assert(trim_end(note) =~= Seq::<char>::empty());
    }
    assert(line[0] == hex_part[0]);
}

/// A stored approval reads back as itself, its note on one line and without
/// trailing white space.
pub proof fn approval_round_trips(a: Approved)
    requires
        a.commitment.len() == 32,
        i64::MIN <= a.expiry <= i64::MAX,
    ensures
        read_store(approval_text(a), 1, None) == Ok::<_, Seq<char>>(
            Some(
                Approved {
                    commitment: a.commitment,
                    expiry: a.expiry,
                    note: trim_end(one_line(a.note)),
                },
            ),
        ),
{
    let text = approval_text(a);
    let note = one_line(a.note);
    let found = Some(
        Approved { commitment: a.commitment, expiry: a.expiry, note: trim_end(note) },
    );
    lemma_stored_line(a);
    lemma_stored_line_trims(a);
    lemma_stored_line_reads(a, note);
    assert(read_store(text, 1, None) == read_store(Seq::<char>::empty(), 2, found));
    assert(Seq::<char>::empty().take(0) =~= Seq::<char>::empty());
    assert(trimmed(Seq::<char>::empty()) =~= Seq::<char>::empty());
    assert(read_line(Seq::<char>::empty()) is Blank);
}

proof fn lemma_hex_chars(bytes: Seq<u8>)
    ensures
        forall|i: int|
            0 <= i < hex::hex_text(bytes).len() ==> !is_space(#[trigger] hex::hex_text(bytes)[i])
                && hex::hex_text(bytes)[i] != '#' && hex::hex_text(bytes)[i] != ' '
                && hex::hex_text(bytes)[i] != '\n',
{
    assert forall|i: int| 0 <= i < hex::hex_text(bytes).len() implies !is_space(
        #[trigger] hex::hex_text(bytes)[i],
    ) && hex::hex_text(bytes)[i] != '#' && hex::hex_text(bytes)[i] != ' ' && hex::hex_text(
        bytes,
    )[i] != '\n' by {
        let b = bytes[i / 2] as int;
        assert(0 <= b / 16 < 16 && 0 <= b % 16 < 16);
    }
}

proof fn lemma_expiry_chars(n: int)
    ensures
        decimal_int(n).len() > 0,
        forall|i: int|
            0 <= i < decimal_int(n).len() ==> !is_space(#[trigger] decimal_int(n)[i])
                && decimal_int(n)[i] != ' ' && decimal_int(n)[i] != '\n',
{
    if n >= 0 {
        lemma_decimal(n as nat);
    } else {
        let digits = decimal((-n) as nat);
        lemma_decimal((-n) as nat);
        assert forall|i: int| 0 <= i < decimal_int(n).len() implies !is_space(
            #[trigger] decimal_int(n)[i],
        ) && decimal_int(n)[i] != ' ' && decimal_int(n)[i] != '\n' by {
            if i > 0 {
                assert(decimal_int(n)[i] == digits[i - 1]);
            }
        }
    }
}

/// A text that trims to nothing is all white space.
proof fn lemma_all_space(text: Seq<char>)
    requires
        trim_end(text).len() == 0,
    ensures
        forall|i: int| 0 <= i < text.len() ==> is_space(#[trigger] text[i]),
    decreases text.len(),
{
    if text.len() > 0 {
        lemma_all_space(text.drop_last());
        assert forall|i: int| 0 <= i < text.len() implies is_space(#[trigger] text[i]) by {
            if i < text.len() - 1 {
                assert(text[i] == text.drop_last()[i]);
            }
        }
    }
}

proof fn lemma_all_space_trims(text: Seq<char>)
    requires
        forall|i: int| 0 <= i < text.len() ==> is_space(#[trigger] text[i]),
    ensures
        trim_end(text).len() == 0,
    decreases text.len(),
{
    if text.len() > 0 {
        assert forall|i: int| 0 <= i < text.drop_last().len() implies is_space(
            #[trigger] text.drop_last()[i],
        ) by {
            assert(text.drop_last()[i] == text[i]);
        }
        lemma_all_space_trims(text.drop_last());
    }
}

/// Where something is left of the second part, the first part stays.
proof fn lemma_trim_end_keeps_front(a: Seq<char>, b: Seq<char>)
    requires
        trim_end(b).len() > 0,
    ensures
        trim_end(a + b) == a + trim_end(b),
    decreases b.len(),
{
    assert((a + b).last() == b.last());
    if is_space(b.last()) {
        assert((a + b).drop_last() =~= a + b.drop_last());
        lemma_trim_end_keeps_front(a, b.drop_last());
    }
}

/// A previous output, as a node needs it to sign an input that spends it.
#[derive(Debug, Clone, PartialEq, Eq)]
pub struct PrevTx {
    pub txid: String,
    pub vout: i64,
    pub script_pub_key: String,
    pub redeem_script: String,
}

/// The signatures of a sweep and what they authorised.
///
/// The amount is carried along because the audit record of a sweep must state
/// what left the vault.
#[derive(Debug, PartialEq, Eq)]
pub struct SweepPartial {
    pub partial: PartialSignature,
    pub swept_atomic: u64,
    pub inputs: usize,
}

/// A sweep that may be signed, and what the node needs to sign it.
#[derive(Debug, PartialEq, Eq)]
pub struct AuthorisedSweep {
    pub plan: SweepPlan,
    pub prevtxs: Vec<PrevTx>,
}

/// A validator's sweep signing view.
pub struct SweepView {
    pub config: WithdrawalConfig,
    pub vault_signer_index: u8,
    /// The sweep this validator has signed, if any. A retry of the same sweep
    /// is free; a second, different sweep of one vault would be a conflicting
    /// spend of the same outputs.
    pub signed: Option<[u8; 32]>,
}

/// Whether a row is the output that a transaction input spends.
pub open spec fn is_row_of(utxo: VaultUtxo, input: TxInput) -> bool {
    spends_outpoint(input, utxo)
}

/// The first row that a transaction input spends.
pub open spec fn row_of(available: Seq<VaultUtxo>, input: TxInput) -> Option<VaultUtxo>
    decreases available.len(),
{
    if available.len() == 0 {
        None
    } else if is_row_of(available[0], input) {
        Some(available[0])
    } else {
        row_of(available.drop_first(), input)
    }
}

/// Whether two inputs spend the same output.
pub open spec fn same_outpoint(a: TxInput, b: TxInput) -> bool {
    a.prev_txid@ == b.prev_txid@ && a.prev_vout == b.prev_vout
}

/// Whether an input spends what an input before it spends already.
pub open spec fn is_repeated(inputs: Seq<TxInput>, i: int) -> bool {
    exists|j: int| 0 <= j < i && #[trigger] same_outpoint(inputs[j], inputs[i])
}

/// Whether the first `n` inputs spend rows of this validator, each of them
/// another.
pub open spec fn knows(available: Seq<VaultUtxo>, inputs: Seq<TxInput>, n: int) -> bool {
    &&& forall|i: int| 0 <= i < n ==> row_of(available, #[trigger] inputs[i]) is Some
    &&& forall|i: int, j: int|
        0 <= i < j < n ==> !#[trigger] same_outpoint(inputs[i], inputs[j])
}

/// The rows that the inputs spend, in input order.
pub open spec fn local_rows(available: Seq<VaultUtxo>, inputs: Seq<TxInput>) -> Seq<VaultUtxo> {
    Seq::new(inputs.len(), |i: int| row_of(available, inputs[i])->0)
}

/// The hash that a script pays, where it is P2SH or P2PKH; zeros otherwise.
pub open spec fn paid_hash160(script: Seq<u8>) -> Seq<u8> {
    if script.len() == 23 && script[0] == 0xa9 && script[1] == 0x14 && script[22] == 0x87 {
        script.subrange(2, 22)
    } else if script.len() == 25 && script[0] == 0x76 && script[1] == 0xa9 && script[2] == 0x14
        && script[23] == 0x88 && script[24] == 0xac {
        script.subrange(3, 23)
    } else {
        Seq::new(20, |i: int| 0u8)
    }
}

/// The most that a sweep of `num_inputs` inputs may pay in fees.
pub open spec fn fee_ceiling(config: WithdrawalConfig, num_inputs: nat) -> nat {
    saturate(
        sweep_fee(num_inputs, config.fee_rate_per_kb as nat, config.vault.input_size())
            * MAX_SWEEP_FEE_MULTIPLE as nat,
    )
}

/// The plan that a proposed transaction describes, over this validator's own
/// rows, or why there is none.
pub open spec fn local_plan(
    config: WithdrawalConfig,
    available: Seq<VaultUtxo>,
    tx: Transaction,
    result: Result<SweepPlan, SweepRefusal>,
) -> bool {
    let inputs = tx.inputs@;
    let rows = local_rows(available, inputs);
    let total = total_value(rows);
    let ceiling = fee_ceiling(config, inputs.len());
    match result {
        Err(SweepRefusal::UnknownInput { index, outpoint }) => {
            &&& index < inputs.len()
            &&& knows(available, inputs, index as int)
            &&& row_of(available, inputs[index as int]) is None || is_repeated(
                inputs,
                index as int,
            )
            &&& outpoint@ == outpoint_text(
                hex::hex_text(inputs[index as int].prev_txid@.reverse()),
                inputs[index as int].prev_vout as int,
            )
        },
        Err(SweepRefusal::PlanMismatch(e)) => {
            &&& knows(available, inputs, inputs.len() as int)
            &&& tx.outputs@.len() != 1
            &&& e@ == SweepError::NotSingleOutput(tx.outputs@.len() as usize).text()
        },
        Err(SweepRefusal::OutputExceedsInputs) => {
            &&& knows(available, inputs, inputs.len() as int)
            &&& tx.outputs@.len() == 1
            &&& tx.outputs@[0].value > total
        },
        Err(SweepRefusal::FeeTooHigh { fee, ceiling: allowed }) => {
            &&& knows(available, inputs, inputs.len() as int)
            &&& tx.outputs@.len() == 1
            &&& tx.outputs@[0].value <= total
            &&& fee == total - tx.outputs@[0].value
            &&& allowed == ceiling
            &&& fee > allowed
        },
        Err(_) => false,
        Ok(plan) => {
            &&& knows(available, inputs, inputs.len() as int)
            &&& tx.outputs@.len() == 1
            &&& tx.outputs@[0].value <= total
            &&& total - tx.outputs@[0].value <= ceiling
            &&& plan.source_hash160 == config.vault.script_hash160
            &&& plan.dest_hash160@ == paid_hash160(tx.outputs@[0].script_pubkey@)
            &&& plan.dest_script_pubkey@ == tx.outputs@[0].script_pubkey@
            &&& plan.dest_address@ == Seq::<char>::empty()
            &&& plan.fee_atomic == total - tx.outputs@[0].value
            &&& plan.swept_atomic == tx.outputs@[0].value
            &&& plan.inputs@ == rows
        },
    }
}

/// Whether the rows that a proposed sweep spends have a countable value and
/// size.
pub open spec fn countable(config: WithdrawalConfig, available: Seq<VaultUtxo>, tx: Transaction) -> bool {
    knows(available, tx.inputs@, tx.inputs@.len() as int) && tx.outputs@.len() == 1
        ==> total_value(local_rows(available, tx.inputs@)) <= u64::MAX && tx_size(
        tx.inputs@.len(),
        SWEEP_OUTPUT_COUNT as nat,
        config.vault.input_size(),
    ) <= u64::MAX
}

/// What the node needs for one row.
pub open spec fn is_prevtx(prevtx: PrevTx, utxo: VaultUtxo, redeem_script: Seq<u8>) -> bool {
    &&& prevtx.txid == utxo.txid_hex
    &&& prevtx.vout == utxo.vout
    &&& prevtx.script_pub_key == utxo.script_pubkey_hex
    &&& prevtx.redeem_script@ == hex::hex_text(redeem_script)
}

/// What the operator's store says.
pub open spec fn staged(read: StoreRead) -> Result<Option<Approved>, Seq<char>> {
    match read {
        StoreRead::Missing => Ok(None),
        StoreRead::Failed(e) => Err(e@),
        StoreRead::Text(text) => read_store(text@, 1, None),
    }
}

/// Whether a planned sweep with the given commitment may be signed: the
/// transaction is the plan, the operator approved exactly it, the approval is
/// in force, and no other sweep was signed.
pub open spec fn verdict(
    config: WithdrawalConfig,
    before: Option<[u8; 32]>,
    plan: SweepPlan,
    commitment: Seq<u8>,
    tx: Transaction,
    read: StoreRead,
    now: int,
    after: Option<[u8; 32]>,
    result: Result<AuthorisedSweep, SweepRefusal>,
) -> bool {
    if !realises(tx, plan) {
        &&& after == before
        &&& result matches Err(SweepRefusal::PlanMismatch(m))
        &&& exists|e: SweepError| departs(tx, plan, e) && m@ == #[trigger] e.text()
    } else {
        match staged(read) {
            Err(e) => {
                &&& after == before
                &&& result matches Err(SweepRefusal::StoreUnreadable(m))
                &&& m@ == e
            },
            Ok(None) => {
                &&& after == before
                &&& result matches Err(SweepRefusal::NotApproved)
            },
            Ok(Some(approval)) => if approval.commitment != commitment {
                &&& after == before
                &&& result matches Err(SweepRefusal::DifferentSweepApproved)
            } else if now > approval.expiry {
                &&& after == before
                &&& result matches Err(SweepRefusal::ApprovalExpired { expiry, now: at })
                &&& expiry == approval.expiry
                &&& at == now
            } else if before is Some && before->0@ != commitment {
                &&& after == before
                &&& result matches Err(SweepRefusal::AlreadySignedAnother)
            } else {
                &&& after is Some
                &&& after->0@ == commitment
                &&& result matches Ok(sweep)
                &&& sweep.plan == plan
                &&& sweep.prevtxs@.len() == plan.inputs@.len()
                &&& forall|i: int|
                    0 <= i < plan.inputs@.len() ==> is_prevtx(
                        #[trigger] sweep.prevtxs@[i],
                        plan.inputs@[i],
                        config.vault.redeem_script@,
                    )
            },
        }
    }
}

/// Whether a result is the answer to a proposed sweep: what the local view says
/// against it, or the verdict on the plan that the local view gives.
pub open spec fn answers(
    config: WithdrawalConfig,
    before: Option<[u8; 32]>,
    available: Seq<VaultUtxo>,
    tx: Transaction,
    read: StoreRead,
    protocol_version: u8,
    now: int,
    after: Option<[u8; 32]>,
    result: Result<AuthorisedSweep, SweepRefusal>,
) -> bool {
    exists|planned: Result<SweepPlan, SweepRefusal>|
        #![trigger local_plan(config, available, tx, planned)]
        local_plan(config, available, tx, planned) && match planned {
            Err(e) => result == Err::<AuthorisedSweep, _>(e) && after == before,
            Ok(plan) => verdict(
                config,
                before,
                plan,
                sha256(plan.intent(protocol_version)),
                tx,
                read,
                now,
                after,
                result,
            ),
        }
}

/// What the node made of a request to sign, once its answer was taken apart.
#[derive(Debug, PartialEq, Eq)]
pub enum SigningReply {
    /// The node did not sign.
    Failed(String),
    /// The node's transaction holds no signatures that can be read.
    Unreadable(String),
    Signed(Vec<Vec<u8>>),
}

fn find_repeated(inputs: &[TxInput], i: usize) -> (repeated: bool)
    requires
        i < inputs@.len(),
    ensures
        repeated == is_repeated(inputs@, i as int),
{
    let mut j: usize = 0;
    while j < i
        invariant
            j <= i < inputs@.len(),
            forall|k: int| 0 <= k < j ==> !#[trigger] same_outpoint(inputs@[k], inputs@[i as int]),
        decreases i - j,
    {
        if same_bytes(&inputs[j].prev_txid, &inputs[i].prev_txid) && inputs[j].prev_vout
            == inputs[i].prev_vout {
            assert(same_outpoint(inputs@[j as int], inputs@[i as int]));
            return true;
        }
        j = j + 1;
    }
    false
}

fn find_row(available: &[VaultUtxo], input: &TxInput) -> (found: Option<usize>)
    ensures
        match found {
            Some(i) => i < available@.len() && row_of(available@, *input) == Some(
                available@[i as int],
            ),
            None => row_of(available@, *input) is None,
        },
{
    let mut i: usize = 0;
    assert(available@.skip(0) =~= available@);
    while i < available.len()
        invariant
            i <= available@.len(),
            row_of(available@, *input) == row_of(available@.skip(i as int), *input),
        decreases available@.len() - i,
    {
        let ghost rest = available@.skip(i as int);
        assert(rest.drop_first() =~= available@.skip(i + 1));
        let row: &VaultUtxo = &available[i];
        if same_bytes(&internal_txid(&row.txid), &input.prev_txid) && row.vout
            == input.prev_vout as i64 {
            return Some(i);
        }
        i = i + 1;
    }
    None
}

/// The hash160 a `scriptPubKey` pays, for P2SH and P2PKH. Anything else yields
/// zeroes: the script bytes are in the commitment either way, so an
/// unrecognised shape merely has no short label.
pub fn dest_hash160_of(script: &[u8]) -> (hash: [u8; 20])
    ensures
        hash@ == paid_hash160(script@),
{
    let mut hash: [u8; 20] = [0u8; 20];
    let from: usize = if script.len() == 23 && script[0] == 0xa9 && script[1] == 0x14
        && script[22] == 0x87 {
        2
    } else if script.len() == 25 && script[0] == 0x76 && script[1] == 0xa9 && script[2] == 0x14
        && script[23] == 0x88 && script[24] == 0xac {
        3
    } else {
        assert(hash@ =~= paid_hash160(script@));
        return hash;
    };
    let mut i: usize = 0;
    while i < 20
        invariant
            i <= 20,
            from + 20 <= script@.len(),
            from <= 3,
            forall|j: int| 0 <= j < i ==> hash@[j] == script@[from + j],
        decreases 20 - i,
    {
        hash[i] = script[from + i];
        i = i + 1;
    }
    assert(hash@ =~= script@.subrange(from as int, from + 20));
    hash
}

impl SweepView {
    /// Whether the signer index names a signer of a vault whose inputs have a
    /// size.
    pub open spec fn wf(self) -> bool {
        &&& self.vault_signer_index < self.config.vault.signer_pubkeys@.len()
        &&& self.config.vault.sized()
    }

    /// Fails closed on a signer index outside the vault: a mapping that could
    /// route a request to the wrong key is rejected at construction.
    pub fn new(config: WithdrawalConfig, vault_signer_index: u8) -> (result: Result<Self, String>)
        requires
            config.vault.sized(),
        ensures
            match result {
                Ok(view) => {
                    &&& vault_signer_index < config.vault.signer_pubkeys@.len()
                    &&& view.wf()
                    &&& view.config == config
                    &&& view.vault_signer_index == vault_signer_index
                    &&& view.signed is None
                },
                Err(e) => {
                    &&& vault_signer_index >= config.vault.signer_pubkeys@.len()
                    &&& e@ == "vault signer index "@ + decimal(vault_signer_index as nat)
                        + " is out of range for a "@ + decimal(config.vault.signer_pubkeys@.len())
                        + "-signer vault"@
                },
            },
    {
        let count: usize = config.vault.signer_count();
        if vault_signer_index as usize >= count {
            let mut e: String = String::from_str("vault signer index ");
            push_decimal(&mut e, vault_signer_index as u64);
            e.append(" is out of range for a ");
            push_decimal(&mut e, count as u64);
            e.append("-signer vault");
            return Err(e);
        }
        Ok(SweepView { config, vault_signer_index, signed: None })
    }

    /// The vault key this validator signs with.
    pub fn vault_pubkey(&self) -> (key: [u8; 33])
        requires
            self.wf(),
        ensures
            key == self.config.vault.signer_pubkeys@[self.vault_signer_index as int],
    {
        self.config.vault.signer_pubkeys[self.vault_signer_index as usize]
    }

    /// Reconstructs the plan a proposed transaction describes, using **this
    /// validator's own** rows for every input amount.
    ///
    /// The request supplies only the transaction. Which outputs are being
    /// spent and what they are worth is read locally, and an output counts
    /// once however often it is named, so a proposer cannot inflate or invent
    /// an input.
    pub fn plan_from_local_view(&self, available: &[VaultUtxo], tx: &Transaction) -> (result:
        Result<SweepPlan, SweepRefusal>)
        requires
            self.wf(),
            countable(self.config, available@, *tx),
        ensures
            local_plan(self.config, available@, *tx, result),
    {
        let ghost rows = local_rows(available@, tx.inputs@);
        let mut inputs: Vec<VaultUtxo> = Vec::new();
        let mut i: usize = 0;
        while i < tx.inputs.len()
            invariant
                i <= tx.inputs@.len(),
                rows == local_rows(available@, tx.inputs@),
                knows(available@, tx.inputs@, i as int),
                inputs@ == rows.take(i as int),
            decreases tx.inputs@.len() - i,
        {
            let input: &TxInput = &tx.inputs[i];
            let repeated: bool = find_repeated(tx.inputs.as_slice(), i);
            match find_row(available, input) {
                Some(row) if !repeated => inputs.push(available[row].clone()),
                _ => {
                    let txid: String = hex::encode(&internal_txid(&input.prev_txid));
                    return Err(
                        SweepRefusal::UnknownInput {
                            index: i,
                            outpoint: outpoint_name(txid.as_str(), input.prev_vout as i64),
                        },
                    );
                },
            }
            i = i + 1;
            assert(inputs@ =~= rows.take(i as int));
        }
        assert(rows.take(rows.len() as int) =~= rows);

        if tx.outputs.len() != 1 {
            let e: SweepError = SweepError::NotSingleOutput(tx.outputs.len());
            return Err(SweepRefusal::PlanMismatch(e.message()));
        }
        let value: u64 = tx.outputs[0].value;
        let total_in: u64 = sum_values(inputs.as_slice());
        if total_in < value {
            return Err(SweepRefusal::OutputExceedsInputs);
        }
        // What the vault loses beyond the output is the fee, by definition.
        let fee: u64 = total_in - value;
        let policy_fee: u64 = fee_for(
            inputs.len() as u64,
            SWEEP_OUTPUT_COUNT,
            self.config.fee_rate_per_kb,
            self.config.vault.input_bytes(),
        );
        let ceiling: u64 = saturating_product(policy_fee, MAX_SWEEP_FEE_MULTIPLE);
        if fee > ceiling {
            return Err(SweepRefusal::FeeTooHigh { fee, ceiling });
        }
        let mut script: Vec<u8> = Vec::new();
        crate::bytes::push_all(&mut script, tx.outputs[0].script_pubkey.as_slice());
        assert(script@ =~= tx.outputs@[0].script_pubkey@);
        Ok(
            SweepPlan {
                source_hash160: self.config.vault.script_hash160,
                dest_hash160: dest_hash160_of(script.as_slice()),
                dest_script_pubkey: script,
                dest_address: String::new(),
                fee_atomic: fee,
                swept_atomic: value,
                inputs,
            },
        )
    }

    /// What the node needs to sign a plan, built entirely from local rows.
    fn prevtxs(&self, plan: &SweepPlan) -> (prevtxs: Vec<PrevTx>)
        ensures
            prevtxs@.len() == plan.inputs@.len(),
            forall|i: int|
                0 <= i < plan.inputs@.len() ==> is_prevtx(
                    #[trigger] prevtxs@[i],
                    plan.inputs@[i],
                    self.config.vault.redeem_script@,
                ),
    {
        let mut prevtxs: Vec<PrevTx> = Vec::new();
        let mut i: usize = 0;
        while i < plan.inputs.len()
            invariant
                i <= plan.inputs@.len(),
                prevtxs@.len() == i,
                forall|j: int|
                    0 <= j < i ==> is_prevtx(
                        #[trigger] prevtxs@[j],
                        plan.inputs@[j],
                        self.config.vault.redeem_script@,
                    ),
            decreases plan.inputs@.len() - i,
        {
            let u: &VaultUtxo = &plan.inputs[i];
            prevtxs.push(
                PrevTx {
                    txid: u.txid_hex.clone(),
                    vout: u.vout,
                    script_pub_key: u.script_pubkey_hex.clone(),
                    redeem_script: self.config.vault.redeem_script_hex(),
                },
            );
            i = i + 1;
        }
        prevtxs
    }

    /// Decides whether a planned sweep with the given commitment may be signed,
    /// and records that it was.
    pub fn decide(
        &mut self,
        plan: SweepPlan,
        commitment: [u8; 32],
        tx: &Transaction,
        read: &StoreRead,
        now_unix: i64,
    ) -> (result: Result<AuthorisedSweep, SweepRefusal>)
        ensures
            final(self).config == old(self).config,
            final(self).vault_signer_index == old(self).vault_signer_index,
            verdict(
                old(self).config,
                old(self).signed,
                plan,
                commitment@,
                *tx,
                *read,
                now_unix as int,
                final(self).signed,
                result,
            ),
    {
        match verify_sweep_tx(tx, &plan) {
            Ok(_) => {},
            Err(e) => {
                return Err(SweepRefusal::PlanMismatch(e.message()));
            },
        }
        let approval: SweepApproval = match SweepApproval::load(read) {
            Ok(Some(approval)) => approval,
            Ok(None) => {
                return Err(SweepRefusal::NotApproved);
            },
            Err(e) => {
                return Err(e);
            },
        };
        if !same_bytes(&approval.commitment, &commitment) {
            return Err(SweepRefusal::DifferentSweepApproved);
        }
        if now_unix > approval.expiry_unix {
            return Err(
                SweepRefusal::ApprovalExpired { expiry: approval.expiry_unix, now: now_unix },
            );
        }
        match &self.signed {
            Some(previous) => {
                if !same_bytes(previous, &commitment) {
                    return Err(SweepRefusal::AlreadySignedAnother);
                }
            },
            None => {},
        }
        self.signed = Some(commitment);
        let prevtxs: Vec<PrevTx> = self.prevtxs(&plan);
        Ok(AuthorisedSweep { plan, prevtxs })
    }

    /// Decides whether to sign a proposed sweep, given what parsing it gave and
    /// what the database says of the vault's outputs.
    ///
    /// The local view comes first: a request that names outputs this validator
    /// cannot see is refused before the approval is even looked at.
    pub fn sign_sweep(
        &mut self,
        available: Result<&[VaultUtxo], String>,
        proposed: Result<&Transaction, String>,
        read: &StoreRead,
        protocol_version: u8,
        now_unix: i64,
    ) -> (result: Result<AuthorisedSweep, SweepRefusal>)
        requires
            old(self).wf(),
            available is Ok && proposed is Ok ==> countable(
                old(self).config,
                available->Ok_0@,
                *proposed->Ok_0,
            ),
        ensures
            final(self).wf(),
            final(self).config == old(self).config,
            final(self).vault_signer_index == old(self).vault_signer_index,
            match (proposed, available) {
                (Err(e), _) => result == Err::<AuthorisedSweep, _>(SweepRefusal::Malformed(e))
                    && final(self).signed == old(self).signed,
                (Ok(_), Err(e)) => result == Err::<AuthorisedSweep, _>(
                    SweepRefusal::DbUnreadable(e),
                ) && final(self).signed == old(self).signed,
                (Ok(tx), Ok(rows)) => answers(
                    old(self).config,
                    old(self).signed,
                    rows@,
                    *tx,
                    *read,
                    protocol_version,
                    now_unix as int,
                    final(self).signed,
                    result,
                ),
            },
    {
        let tx: &Transaction = match proposed {
            Ok(tx) => tx,
            Err(e) => {
                return Err(SweepRefusal::Malformed(e));
            },
        };
        let rows: &[VaultUtxo] = match available {
            Ok(rows) => rows,
            Err(e) => {
                return Err(SweepRefusal::DbUnreadable(e));
            },
        };
        let planned: Result<SweepPlan, SweepRefusal> = self.plan_from_local_view(rows, tx);
        let ghost outcome = planned;
        assert(local_plan(old(self).config, rows@, *tx, outcome));
        match planned {
            Err(e) => Err(e),
            Ok(plan) => {
                let commitment: [u8; 32] = plan.commitment(protocol_version);
                self.decide(plan, commitment, tx, read, now_unix)
            },
        }
    }

    /// The answer to the requester, once the node was asked to sign.
    pub fn finish_sweep(&self, plan: &SweepPlan, reply: SigningReply) -> (result: Result<
        SweepPartial,
        SweepRefusal,
    >)
        requires
            self.wf(),
        ensures
            match reply {
                SigningReply::Failed(e) => result == Err::<SweepPartial, _>(
                    SweepRefusal::SigningFailed(e),
                ),
                SigningReply::Unreadable(e) => result == Err::<SweepPartial, _>(
                    SweepRefusal::MalformedPartial(e),
                ),
                SigningReply::Signed(signatures) => {
                    &&& result matches Ok(answer)
                    &&& answer.swept_atomic == plan.swept_atomic
                    &&& answer.inputs == plan.inputs@.len()
                    &&& answer.partial.vault_pubkey
                        == self.config.vault.signer_pubkeys@[self.vault_signer_index as int]
                    &&& answer.partial.signatures == signatures
                },
            },
    {
        match reply {
            SigningReply::Failed(e) => Err(SweepRefusal::SigningFailed(e)),
            SigningReply::Unreadable(e) => Err(SweepRefusal::MalformedPartial(e)),
            SigningReply::Signed(signatures) => Ok(
                SweepPartial {
                    swept_atomic: plan.swept_atomic,
                    inputs: plan.inputs.len(),
                    partial: PartialSignature { vault_pubkey: self.vault_pubkey(), signatures },
                },
            ),
        }
    }
}

/// A P2SH script is labelled with the hash it was made from.
pub proof fn p2sh_destinations_are_recognised(hash160: Seq<u8>)
    requires
        hash160.len() == 20,
    ensures
        paid_hash160(p2sh_script(hash160)) == hash160,
{
    assert(p2sh_script(hash160).subrange(2, 22) =~= hash160);
}

/// A validator that has signed one sweep never authorises another, whatever is
/// proposed and whatever is staged, and it remembers the one it signed.
pub proof fn a_validator_signs_one_sweep(
    config: WithdrawalConfig,
    signed: [u8; 32],
    plan: SweepPlan,
    commitment: Seq<u8>,
    tx: Transaction,
    read: StoreRead,
    now: int,
    after: Option<[u8; 32]>,
    result: Result<AuthorisedSweep, SweepRefusal>,
)
    requires
        verdict(config, Some(signed), plan, commitment, tx, read, now, after, result),
    ensures
        after is Some,
        after->0@ == signed@,
        result is Ok ==> commitment == signed@,
{
}

/// A sweep is authorised only where the operator staged a commitment to
/// exactly this plan and the approval has not expired.
pub proof fn only_an_approved_sweep_is_signed(
    config: WithdrawalConfig,
    before: Option<[u8; 32]>,
    plan: SweepPlan,
    commitment: Seq<u8>,
    tx: Transaction,
    read: StoreRead,
    now: int,
    after: Option<[u8; 32]>,
    result: Result<AuthorisedSweep, SweepRefusal>,
)
    requires
        verdict(config, before, plan, commitment, tx, read, now, after, result),
        result is Ok,
    ensures
        realises(tx, plan),
        staged(read) matches Ok(Some(approval)) && approval.commitment == commitment && now
            <= approval.expiry,
{
}

/// Retrying an authorised sweep is authorised again, and changes nothing.
pub proof fn a_retry_is_free(
    config: WithdrawalConfig,
    plan: SweepPlan,
    commitment: Seq<u8>,
    tx: Transaction,
    read: StoreRead,
    now: int,
    before: Option<[u8; 32]>,
    first: Option<[u8; 32]>,
    first_result: Result<AuthorisedSweep, SweepRefusal>,
    second: Option<[u8; 32]>,
    second_result: Result<AuthorisedSweep, SweepRefusal>,
)
    requires
        verdict(config, before, plan, commitment, tx, read, now, first, first_result),
        first_result is Ok,
        verdict(config, first, plan, commitment, tx, read, now, second, second_result),
    ensures
        second_result is Ok,
        second is Some,
        second->0@ == first->0@,
{
}

/// A plan from the local view spends only this validator's own rows, those that
/// the transaction names and none of them twice, and its fee is what the rows
/// are worth beyond the output. So what is swept is never more than the vault
/// holds.
pub proof fn a_local_plan_is_made_of_local_rows(
    config: WithdrawalConfig,
    available: Seq<VaultUtxo>,
    tx: Transaction,
    plan: SweepPlan,
)
    requires
        local_plan(config, available, tx, Ok(plan)),
    ensures
        forall|i: int| 0 <= i < plan.inputs@.len() ==> available.contains(#[trigger] plan.inputs@[i]),
        plan.inputs@.len() == tx.inputs@.len(),
        forall|i: int|
            0 <= i < plan.inputs@.len() ==> spends_outpoint(
                tx.inputs@[i],
                #[trigger] plan.inputs@[i],
            ),
        forall|i: int, j: int|
            0 <= i < j < plan.inputs@.len() ==> (#[trigger] plan.inputs@[i]).txid@ != (
            #[trigger] plan.inputs@[j]).txid@ || plan.inputs@[i].vout != plan.inputs@[j].vout,
        plan.swept_atomic + plan.fee_atomic == total_value(plan.inputs@),
        total_value(plan.inputs@) <= total_value(available),
{
    assert forall|i: int, j: int| 0 <= i < j < plan.inputs@.len() implies (
    #[trigger] plan.inputs@[i]).txid@ != (#[trigger] plan.inputs@[j]).txid@
        || plan.inputs@[i].vout != plan.inputs@[j].vout by {
        assert(row_of(available, tx.inputs@[i]) is Some);
        assert(row_of(available, tx.inputs@[j]) is Some);
        lemma_row_is_available(available, tx.inputs@[i]);
        lemma_row_is_available(available, tx.inputs@[j]);
        assert(!same_outpoint(tx.inputs@[i], tx.inputs@[j]));
    }
    assert forall|i: int| 0 <= i < plan.inputs@.len() implies available.contains(
        #[trigger] plan.inputs@[i],
    ) && spends_outpoint(tx.inputs@[i], plan.inputs@[i]) by {
        assert(row_of(available, tx.inputs@[i]) is Some);
        lemma_row_is_available(available, tx.inputs@[i]);
    }
    lemma_rows_are_worth_no_more(plan.inputs@, available);
}

/// Outputs are worth what one of them is worth and the others.
proof fn lemma_value_without(utxos: Seq<VaultUtxo>, k: int)
    requires
        0 <= k < utxos.len(),
    ensures
        total_value(utxos) == total_value(utxos.remove(k)) + utxos[k].amount_atomic,
    decreases utxos.len(),
{
    if k == utxos.len() - 1 {
        assert(utxos.remove(k) =~= utxos.drop_last());
    } else {
        lemma_value_without(utxos.drop_last(), k);
        assert(utxos.remove(k).drop_last() =~= utxos.drop_last().remove(k));
    }
}

/// Rows of a view, none of them twice, are worth no more than the view.
proof fn lemma_rows_are_worth_no_more(rows: Seq<VaultUtxo>, available: Seq<VaultUtxo>)
    requires
        forall|i: int| 0 <= i < rows.len() ==> available.contains(#[trigger] rows[i]),
        forall|i: int, j: int|
            0 <= i < j < rows.len() ==> (#[trigger] rows[i]).txid@ != (#[trigger] rows[j]).txid@
                || rows[i].vout != rows[j].vout,
    ensures
        total_value(rows) <= total_value(available),
    decreases rows.len(),
{
    if rows.len() > 0 {
        let last = rows.last();
        let fewer = rows.drop_last();
        assert(available.contains(rows[rows.len() - 1]));
        let k = choose|k: int| 0 <= k < available.len() && available[k] == last;
        let rest = available.remove(k);
        assert forall|i: int| 0 <= i < fewer.len() implies rest.contains(#[trigger] fewer[i]) by {
            assert(fewer[i] == rows[i]);
            assert(rows[i] != rows[rows.len() - 1]);
            let m = choose|m: int| 0 <= m < available.len() && available[m] == rows[i];
            if m < k {
                assert(rest[m] == rows[i]);
            } else {
                assert(rest[m - 1] == rows[i]);
            }
        }
        lemma_rows_are_worth_no_more(fewer, rest);
        lemma_value_without(available, k);
    }
}

proof fn lemma_row_is_available(available: Seq<VaultUtxo>, input: TxInput)
    requires
        row_of(available, input) is Some,
    ensures
        available.contains(row_of(available, input)->0),
        is_row_of(row_of(available, input)->0, input),
    decreases available.len(),
{
    if is_row_of(available[0], input) {
        assert(available[0] == row_of(available, input)->0);
    } else {
        lemma_row_is_available(available.drop_first(), input);
        let i = choose|i: int|
            0 <= i < available.drop_first().len() && available.drop_first()[i] == row_of(
                available,
                input,
            )->0;
        assert(available[i + 1] == row_of(available, input)->0);
    }
}

/// A row is found exactly where one is the output that the input spends.
proof fn lemma_row_exists(available: Seq<VaultUtxo>, input: TxInput)
    ensures
        row_of(available, input) is Some <==> exists|r: int|
            0 <= r < available.len() && spends_outpoint(input, #[trigger] available[r]),
    decreases available.len(),
{
    if available.len() > 0 {
        let rest = available.drop_first();
        lemma_row_exists(rest, input);
        if spends_outpoint(input, available[0]) {
            assert(row_of(available, input) is Some);
        } else {
            if exists|r: int| 0 <= r < available.len() && spends_outpoint(input, #[trigger] available[r]) {
                let r = choose|r: int|
                    0 <= r < available.len() && spends_outpoint(input, #[trigger] available[r]);
                assert(rest[r - 1] == available[r]);
            }
            if exists|r: int| 0 <= r < rest.len() && spends_outpoint(input, #[trigger] rest[r]) {
                let r = choose|r: int| 0 <= r < rest.len() && spends_outpoint(input, #[trigger] rest[r]);
                assert(available[r + 1] == rest[r]);
            }
        }
    }
}

/// Whether an input spends one of some rows.
pub open spec fn is_own(available: Seq<VaultUtxo>, input: TxInput) -> bool {
    exists|r: int| 0 <= r < available.len() && spends_outpoint(input, #[trigger] available[r])
}

/// A proposed sweep is planned exactly where every input spends one of this
/// validator's own rows and none another's, it pays one output, no more than the
/// rows are worth, and a fee of at most ten times what a sweep of that many
/// inputs costs. The plan is then what the transaction says.
pub proof fn a_sweep_of_own_rows_is_planned(
    config: WithdrawalConfig,
    available: Seq<VaultUtxo>,
    tx: Transaction,
    result: Result<SweepPlan, SweepRefusal>,
)
    requires
        local_plan(config, available, tx, result),
        total_value(local_rows(available, tx.inputs@)) <= u64::MAX,
    ensures
        ({
            let total = total_value(local_rows(available, tx.inputs@));
            let cost = crate::withdrawal::coin::fee(
                tx.inputs@.len(),
                1,
                config.fee_rate_per_kb as nat,
                config.vault.input_size(),
            );
            let own = forall|i: int|
                0 <= i < tx.inputs@.len() ==> is_own(available, #[trigger] tx.inputs@[i]);
            let once = forall|i: int, j: int|
                0 <= i < j < tx.inputs@.len() ==> (#[trigger] tx.inputs@[i]).prev_txid@ != (
                #[trigger] tx.inputs@[j]).prev_txid@ || tx.inputs@[i].prev_vout
                    != tx.inputs@[j].prev_vout;
            &&& result is Ok <==> {
                &&& own
                &&& once
                &&& tx.outputs@.len() == 1
                &&& tx.outputs@[0].value <= total
                &&& total - tx.outputs@[0].value <= 10 * cost
            }
            &&& (result matches Ok(plan) ==> {
                &&& plan.inputs@.len() == tx.inputs@.len()
                &&& plan.swept_atomic == tx.outputs@[0].value
                &&& plan.swept_atomic + plan.fee_atomic == total
                &&& plan.dest_script_pubkey@ == tx.outputs@[0].script_pubkey@
                &&& plan.source_hash160 == config.vault.script_hash160
            })
            &&& (result matches Err(SweepRefusal::UnknownInput { index, .. }) ==> index
                < tx.inputs@.len() && !(own && once))
            &&& (result matches Err(SweepRefusal::PlanMismatch(_)) ==> tx.outputs@.len() != 1)
            &&& (result matches Err(SweepRefusal::OutputExceedsInputs) ==> tx.outputs@[0].value
                > total)
            &&& (result matches Err(SweepRefusal::FeeTooHigh { fee, ceiling }) ==> fee
                == total - tx.outputs@[0].value && fee > ceiling && ceiling == 10 * cost)
        }),
{
    let inputs = tx.inputs@;
    assert forall|i: int| 0 <= i < inputs.len() implies (row_of(
        available,
        #[trigger] inputs[i],
    ) is Some <==> is_own(available, inputs[i])) by {
        lemma_row_exists(available, inputs[i]);
    }
    let own = forall|i: int| 0 <= i < inputs.len() ==> is_own(available, #[trigger] inputs[i]);
    let once = forall|i: int, j: int|
        0 <= i < j < inputs.len() ==> (#[trigger] inputs[i]).prev_txid@ != (
        #[trigger] inputs[j]).prev_txid@ || inputs[i].prev_vout != inputs[j].prev_vout;
    if knows(available, inputs, inputs.len() as int) {
        assert(own);
        assert forall|i: int, j: int| 0 <= i < j < inputs.len() implies (
        #[trigger] inputs[i]).prev_txid@ != (#[trigger] inputs[j]).prev_txid@
            || inputs[i].prev_vout != inputs[j].prev_vout by {
            assert(!same_outpoint(inputs[i], inputs[j]));
        }
        assert(once);
    }
    if own && once {
        assert(knows(available, inputs, inputs.len() as int));
    }
    if let Err(SweepRefusal::UnknownInput { index, .. }) = result {
        if is_repeated(inputs, index as int) {
            let j = choose|j: int| 0 <= j < index && #[trigger] same_outpoint(inputs[j], inputs[index as int]);
            assert(inputs[j].prev_txid@ == inputs[index as int].prev_txid@);
            assert(!once);
        }
    }
}

/// A planned sweep is signed exactly where the transaction is the plan, the
/// operator staged its commitment, the approval is in force up to its expiry,
/// and no other sweep was signed. The validator remembers what it signed, and
/// remembers nothing of what it refused. The node is given this validator's own
/// rows.
pub proof fn a_sweep_is_signed_exactly_where_it_was_approved(
    config: WithdrawalConfig,
    before: Option<[u8; 32]>,
    plan: SweepPlan,
    commitment: Seq<u8>,
    tx: Transaction,
    read: StoreRead,
    now: int,
    after: Option<[u8; 32]>,
    result: Result<AuthorisedSweep, SweepRefusal>,
)
    requires
        verdict(config, before, plan, commitment, tx, read, now, after, result),
    ensures
        result is Ok <==> {
            &&& realises(tx, plan)
            &&& staged(read) matches Ok(Some(approval))
            &&& approval.commitment == commitment
            &&& now <= approval.expiry
            &&& before is None || before->0@ == commitment
        },
        result is Ok ==> after is Some && after->0@ == commitment,
        result is Err ==> after == before,
        result matches Ok(sweep) ==> {
            &&& sweep.plan == plan
            &&& sweep.prevtxs@.len() == plan.inputs@.len()
            &&& forall|i: int|
                0 <= i < plan.inputs@.len() ==> {
                    &&& (#[trigger] sweep.prevtxs@[i]).txid == plan.inputs@[i].txid_hex
                    &&& sweep.prevtxs@[i].vout == plan.inputs@[i].vout
                    &&& sweep.prevtxs@[i].script_pub_key == plan.inputs@[i].script_pubkey_hex
                    &&& sweep.prevtxs@[i].redeem_script@ == hex::hex_text(
                        config.vault.redeem_script@,
                    )
                }
        },
        result matches Err(SweepRefusal::NotApproved) ==> staged(read) == Ok::<_, Seq<char>>(
            None::<Approved>,
        ),
        result matches Err(SweepRefusal::ApprovalExpired { expiry, now: at }) ==> at == now && expiry
            < now && (staged(read) matches Ok(Some(approval)) && approval.expiry == expiry),
        result matches Err(SweepRefusal::DifferentSweepApproved) ==> (staged(read) matches Ok(
            Some(approval),
        ) && approval.commitment != commitment),
        result matches Err(SweepRefusal::AlreadySignedAnother) ==> before is Some && before->0@
            != commitment,
        result matches Err(SweepRefusal::PlanMismatch(_)) ==> !realises(tx, plan),
{
}

/// Whatever is proposed: a validator authorises only a plan made of its own
/// rows, that the transaction is, and whose very commitment the operator staged
/// in time; and a refusal leaves what it signed as it was.
pub proof fn a_proposal_is_answered_from_the_own_view(
    config: WithdrawalConfig,
    before: Option<[u8; 32]>,
    available: Seq<VaultUtxo>,
    tx: Transaction,
    read: StoreRead,
    protocol_version: u8,
    now: int,
    after: Option<[u8; 32]>,
    result: Result<AuthorisedSweep, SweepRefusal>,
)
    requires
        answers(config, before, available, tx, read, protocol_version, now, after, result),
    ensures
        result matches Ok(sweep) ==> {
            &&& local_plan(config, available, tx, Ok(sweep.plan))
            &&& realises(tx, sweep.plan)
            &&& after is Some
            &&& after->0@ == sha256(sweep.plan.intent(protocol_version))
            &&& before is None || before->0@ == after->0@
            &&& staged(read) matches Ok(Some(approval))
            &&& approval.commitment == sha256(sweep.plan.intent(protocol_version))
            &&& now <= approval.expiry
        },
        result is Err ==> after == before,
{
}

/// An approval that is staged behind others is the one in force, whatever was
/// staged before it.
pub proof fn a_later_approval_takes_the_place_of_an_earlier_one(
    a: Approved,
    rest: Seq<char>,
    number: nat,
    found: Option<Approved>,
)
    requires
        a.commitment.len() == 32,
        i64::MIN <= a.expiry <= i64::MAX,
    ensures
        read_store(approval_text(a) + rest, number, found) == read_store(
            rest,
            number + 1,
            Some(
                Approved {
                    commitment: a.commitment,
                    expiry: a.expiry,
                    note: trim_end(one_line(a.note)),
                },
            ),
        ),
{
    let text = approval_text(a);
    let whole = text + rest;
    let note = one_line(a.note);
    let line = stored_head(a) + " "@ + note;
    let end = line.len() as int;
    lemma_stored_line(a);
    lemma_stored_line_trims(a);
    lemma_stored_line_reads(a, note);
    crate::text::lemma_index_of(text, '\n');
    assert forall|i: int| 0 <= i < end implies whole[i] != '\n' by {
        assert(whole[i] == text[i]);
    }
    assert(whole[end] == text[end]);
    lemma_index_of_unique(whole, '\n', end);
    assert(whole.take(end) =~= text.take(end));
    assert(whole.skip(end + 1) =~= rest);
}

/// A line that is blank or a comment says nothing: the store reads as without
/// it.
pub proof fn a_comment_approves_nothing(
    line: Seq<char>,
    rest: Seq<char>,
    number: nat,
    found: Option<Approved>,
)
    requires
        forall|i: int| 0 <= i < line.len() ==> line[i] != '\n',
        trimmed(line).len() == 0 || trimmed(line)[0] == '#',
    ensures
        read_store(line + seq!['\n'] + rest, number, found) == read_store(rest, number + 1, found),
{
    let whole = line + seq!['\n'] + rest;
    let end = line.len() as int;
    assert forall|i: int| 0 <= i < end implies whole[i] != '\n' by {
        assert(whole[i] == line[i]);
    }
    assert(whole[end] == '\n');
    lemma_index_of_unique(whole, '\n', end);
    assert(whole.take(end) =~= line);
    assert(whole.skip(end + 1) =~= rest);
}

/// A script that pays a key's hash is labelled with that hash.
pub proof fn p2pkh_destinations_are_recognised(hash160: Seq<u8>)
    requires
        hash160.len() == 20,
    ensures
        paid_hash160(crate::withdrawal::address::p2pkh_script(hash160)) == hash160,
{
    assert(crate::withdrawal::address::p2pkh_script(hash160).subrange(3, 23) =~= hash160);
}

/// What a store that is not there, cannot be read, or holds nothing says: that
/// nothing is approved, or that nobody can tell.
pub proof fn nothing_staged_approves_nothing(e: String)
    ensures
        staged(StoreRead::Missing) == Ok::<_, Seq<char>>(None::<Approved>),
        staged(StoreRead::Failed(e)) == Err::<Option<Approved>, _>(e@),
        read_store(Seq::empty(), 1, None) == Ok::<_, Seq<char>>(None::<Approved>),
{
    assert(Seq::<char>::empty().take(0) =~= Seq::<char>::empty());
    assert(trimmed(Seq::<char>::empty()) =~= Seq::<char>::empty());
}

/// A validator has a view exactly where it holds a position of the vault, and
/// starts without having signed anything.
pub proof fn a_view_is_of_one_of_the_vaults_signers(
    config: WithdrawalConfig,
    vault_signer_index: u8,
    result: Result<SweepView, String>,
)
    requires
        config.vault.sized(),
        call_ensures(SweepView::new, (config, vault_signer_index), result),
    ensures
        result is Ok <==> vault_signer_index < config.vault.signer_pubkeys@.len(),
        result matches Ok(view) ==> view.config == config && view.vault_signer_index
            == vault_signer_index && view.signed is None,
{
}

/// What the node signed is answered under the validator's own vault key, with
/// every signature; what it did not sign is not answered.
pub proof fn an_answer_is_what_the_node_signed(
    view: SweepView,
    plan: SweepPlan,
    reply: SigningReply,
    result: Result<SweepPartial, SweepRefusal>,
)
    requires
        view.wf(),
        call_ensures(SweepView::finish_sweep, (&view, &plan, reply), result),
    ensures
        result is Ok <==> reply is Signed,
        result matches Ok(answer) ==> {
            &&& reply == SigningReply::Signed(answer.partial.signatures)
            &&& answer.partial.vault_pubkey
                == view.config.vault.signer_pubkeys@[view.vault_signer_index as int]
            &&& answer.swept_atomic == plan.swept_atomic
            &&& answer.inputs == plan.inputs@.len()
        },
{
}

/// A line of a commitment, an expiry and a note is an approval of exactly those,
/// in whichever way the commitment and the expiry are spelled. The note may hold
/// spaces, and may be missing.
pub proof fn a_line_is_read_as_it_is_spelled(
    commitment: Seq<char>,
    expiry: Seq<char>,
    note: Seq<char>,
    at: int,
)
    requires
        hex::is_hex(commitment),
        commitment.len() == 64,
        i64_value(expiry) == Some(at),
    ensures
        read_line(commitment + seq![' '] + expiry + seq![' '] + note) == StoreLine::Approval(
            Approved { commitment: hex::hex_bytes(commitment), expiry: at, note },
        ),
        read_line(commitment + seq![' '] + expiry) == StoreLine::Approval(
            Approved { commitment: hex::hex_bytes(commitment), expiry: at, note: Seq::empty() },
        ),
{
    hex::hex_is_read_in_either_case(commitment);
    assert forall|i: int| 0 <= i < commitment.len() implies commitment[i] != ' ' && commitment[i]
        != '#' by {
        let c = commitment[i];
        assert('0' <= c <= '9' || 'a' <= c <= 'f' || 'A' <= c <= 'F');
    }
    lemma_no_space_in_a_number(expiry);
    let long = commitment + seq![' '] + expiry + seq![' '] + note;
    let short = commitment + seq![' '] + expiry;
    lemma_first_word(commitment, expiry + seq![' '] + note);
    assert(commitment + seq![' '] + (expiry + seq![' '] + note) =~= long);
    lemma_first_word(expiry, note);
    lemma_first_word(commitment, expiry);
    lemma_index_of_unique(expiry, ' ', expiry.len() as int);
    assert(expiry.take(expiry.len() as int) =~= expiry);
    assert(long[0] == commitment[0] && short[0] == commitment[0]);
}

proof fn lemma_first_word(word: Seq<char>, rest: Seq<char>)
    requires
        forall|i: int| 0 <= i < word.len() ==> word[i] != ' ',
    ensures
        index_of(word + seq![' '] + rest, ' ') == word.len(),
        (word + seq![' '] + rest).take(word.len() as int) == word,
        (word + seq![' '] + rest).skip(word.len() as int + 1) == rest,
{
    let line = word + seq![' '] + rest;
    assert forall|i: int| 0 <= i < word.len() implies line[i] != ' ' by {
        assert(line[i] == word[i]);
    }
    assert(line[word.len() as int] == ' ');
    lemma_index_of_unique(line, ' ', word.len() as int);
    assert(line.take(word.len() as int) =~= word);
    assert(line.skip(word.len() as int + 1) =~= rest);
}

proof fn lemma_no_space_in_a_number(text: Seq<char>)
    requires
        i64_value(text) is Some,
    ensures
        forall|i: int| 0 <= i < text.len() ==> text[i] != ' ',
{
    assert forall|i: int| 0 <= i < text.len() implies text[i] != ' ' by {
        if text[0] == '-' || text[0] == '+' {
            if i > 0 {
                assert(text.drop_first()[i - 1] == text[i]);
            }
        } else {
            assert('0' <= text[i] <= '9');
        }
    }
}

/// A line whose first word is not 32 bytes in hexadecimal, or whose second word
/// is missing or no number, is no approval, whatever follows.
pub proof fn a_misspelled_line_is_no_approval(
    word: Seq<char>,
    second: Seq<char>,
    rest: Seq<char>,
)
    requires
        word.len() > 0,
        word[0] != '#',
        forall|i: int| 0 <= i < word.len() ==> word[i] != ' ',
        forall|i: int| 0 <= i < second.len() ==> second[i] != ' ',
    ensures
        read_line(word) is Bad,
        !(hex::is_hex(word) && word.len() == 64) ==> read_line(word + seq![' '] + rest) is Bad,
        i64_value(second) is None ==> read_line(word + seq![' '] + second) is Bad && read_line(
            word + seq![' '] + second + seq![' '] + rest,
        ) is Bad,
{
    lemma_index_of_unique(word, ' ', word.len() as int);
    assert(word.take(word.len() as int) =~= word);
    lemma_first_word(word, rest);
    lemma_first_word(word, second);
    lemma_first_word(second, rest);
    lemma_index_of_unique(second, ' ', second.len() as int);
    assert(second.take(second.len() as int) =~= second);
    let long = word + seq![' '] + second + seq![' '] + rest;
    lemma_first_word(word, second + seq![' '] + rest);
    assert(word + seq![' '] + (second + seq![' '] + rest) =~= long);
    assert((word + seq![' '] + rest)[0] == word[0]);
    assert((word + seq![' '] + second)[0] == word[0]);
    assert(long[0] == word[0]);
}

/// One line that cannot be read makes the whole store unreadable, whatever was
/// approved before it and whatever follows, and it is named by its number.
pub proof fn a_bad_line_spoils_the_store(
    line: Seq<char>,
    rest: Seq<char>,
    number: nat,
    found: Option<Approved>,
)
    requires
        forall|i: int| 0 <= i < line.len() ==> line[i] != '\n',
        read_line(trimmed(line)) is Bad,
    ensures
        read_store(line, number, found) is Err,
        read_store(line + seq!['\n'] + rest, number, found) is Err,
        read_store(line, number, found) matches Err(why) ==> shows(
            why,
            "line "@ + decimal(number),
        ),
{
    let end = line.len() as int;
    let whole = line + seq!['\n'] + rest;
    lemma_index_of_unique(line, '\n', end);
    assert(line.take(end) =~= line);
    assert forall|i: int| 0 <= i < end implies whole[i] != '\n' by {
        assert(whole[i] == line[i]);
    }
    assert(whole[end] == '\n');
    lemma_index_of_unique(whole, '\n', end);
    assert(whole.take(end) =~= line);
    let what = read_line(trimmed(line))->Bad_0;
    let place = "line "@ + decimal(number);
    lemma_shows_within(Seq::empty(), place, ": "@ + what);
    assert(Seq::<char>::empty() + place + (": "@ + what) =~= place + ": "@ + what);
}

/// The last line counts whether or not it is ended.
pub proof fn the_last_line_need_not_be_ended(
    line: Seq<char>,
    number: nat,
    found: Option<Approved>,
)
    requires
        forall|i: int| 0 <= i < line.len() ==> line[i] != '\n',
    ensures
        read_line(trimmed(line)) matches StoreLine::Approval(a) ==> read_store(line, number, found)
            == Ok::<_, Seq<char>>(Some(a)),
        read_line(trimmed(line)) is Blank ==> read_store(line, number, found) == Ok::<_, Seq<char>>(
            found,
        ),
{
    let end = line.len() as int;
    lemma_index_of_unique(line, '\n', end);
    assert(line.take(end) =~= line);
}

/// A script that pays neither a key's hash nor a script's hash is labelled with
/// zeros.
pub proof fn other_destinations_are_labelled_with_zeros(script: Seq<u8>)
    requires
        forall|hash: Seq<u8>|
            hash.len() == 20 ==> script != #[trigger] p2sh_script(hash) && script
                != crate::withdrawal::address::p2pkh_script(hash),
    ensures
        paid_hash160(script).len() == 20,
        forall|i: int| 0 <= i < 20 ==> paid_hash160(script)[i] == 0,
{
    if script.len() == 23 {
        let hash = script.subrange(2, 22);
        assert(script != p2sh_script(hash));
        if script[0] == 0xa9 && script[1] == 0x14 && script[22] == 0x87 {
            assert(script =~= p2sh_script(hash));
        }
    }
    if script.len() == 25 {
        let hash = script.subrange(3, 23);
        assert(script != p2sh_script(hash) && script != crate::withdrawal::address::p2pkh_script(
            hash,
        ));
        if script[0] == 0x76 && script[1] == 0xa9 && script[2] == 0x14 && script[23] == 0x88
            && script[24] == 0xac {
            assert(script =~= crate::withdrawal::address::p2pkh_script(hash));
        }
    }
}

/// What a validator answers to a sweep that it does not sign names what it holds
/// against it.
pub proof fn a_refusing_validator_says_why(
    expiry: i64,
    now: i64,
    fee: u64,
    ceiling: u64,
    index: usize,
    outpoint: String,
)
    ensures
        ({
            let late = SweepRefusal::ApprovalExpired { expiry, now }.text();
            let dear = SweepRefusal::FeeTooHigh { fee, ceiling }.text();
            let strange = SweepRefusal::UnknownInput { index, outpoint }.text();
            &&& shows(late, decimal_int(expiry as int)) && shows(late, decimal_int(now as int))
            &&& shows(dear, decimal(fee as nat)) && shows(dear, decimal(ceiling as nat))
            &&& shows(strange, decimal(index as nat)) && shows(strange, outpoint@)
        }),
{
    lemma_shows_both(
        "the sweep approval expired at "@,
        decimal_int(expiry as int),
        ", now "@,
        decimal_int(now as int),
    );
    let f = decimal(fee as nat);
    let c = decimal(ceiling as nat);
    lemma_shows_both("the sweep pays a "@, f, " fee, more than the "@, c);
    let dear = "the sweep pays a "@ + f + " fee, more than the "@ + c;
    lemma_shows_going_on(dear, f, " ceiling for its shape"@);
    lemma_shows_going_on(dear, c, " ceiling for its shape"@);
    let i = decimal(index as nat);
    lemma_shows_both("input "@, i, " ("@, outpoint@);
    let strange = "input "@ + i + " ("@ + outpoint@;
    let end = ") is not an available vault output in this validator's own view"@;
    lemma_shows_going_on(strange, i, end);
    lemma_shows_going_on(strange, outpoint@, end);
}

} // verus!

//! Typed records and the rows they are read from.
use crate::calendar::{writable, Instant};
use crate::decimal::{
    bool_to_string, decimal, flag_text, i64_to_string, lemma_decimal_digits,
    lemma_flag_round_trip, lemma_signed_round_trip, lemma_unsigned_round_trip, parse_bool,
    parse_flag, parse_i64, parse_signed, parse_u64, parse_unsigned, parse_usize, signed_decimal,
    u64_to_string, usize_to_string,
};
use vstd::prelude::*;

verus! {

/// Why a row was rejected. Each variant carries the row as it was read.
#[derive(Debug, Clone, PartialEq, Eq)]
pub enum Error {
    /// A row that is no screen-name change, or a suspension row of the right
    /// width with a typed field that does not parse.
    InvalidScreenNamesRecord(Vec<String>),
    /// A suspension row of the wrong width, or an unknown-account row
    /// without a detection instant.
    InvalidSuspensionsRecord(Vec<String>),
}

/// The number of fields in a screen-name row.
pub const SCREEN_NAME_FIELDS: usize = 8;

/// The number of fields in a suspension row.
pub const SUSPENSION_FIELDS: usize = 9;

/// The position, in a suspension row, of the account-creation field. Where
/// it is empty the account is unknown.
pub const IDENTITY_FIELD: usize = 3;

/// The magnitude of the least signed 64-bit number.
pub open spec fn i64_min_magnitude() -> nat {
    0x8000_0000_0000_0000
}

/// The instant that a field denotes: signed decimal seconds since the epoch
/// that the report can show.
pub open spec fn instant_of(field: Seq<char>) -> Option<int> {
    match parse_signed(field, i64_min_magnitude(), i64::MAX as nat) {
        Some(secs) => if writable(secs) {
            Some(secs)
        } else {
            None
        },
        None => None,
    }
}

/// The instant that an optional field denotes: nothing where it is empty.
pub open spec fn optional_instant_of(field: Seq<char>) -> Option<Option<int>> {
    if field.len() == 0 {
        Some(None)
    } else {
        match instant_of(field) {
            Some(secs) => Some(Some(secs)),
            None => None,
        }
    }
}

/// Whether an instant is one that a record can hold.
pub open spec fn instant_in_range(secs: int) -> bool {
    -(i64_min_magnitude() as int) <= secs <= i64::MAX && writable(secs)
}

/// Writing an instant and reading it back gives the instant.
pub proof fn lemma_instant_round_trip(secs: int)
    requires
        instant_in_range(secs),
    ensures
        instant_of(signed_decimal(secs)) == Some(secs),
        signed_decimal(secs).len() > 0,
{
    lemma_signed_round_trip(secs, i64_min_magnitude(), i64::MAX as nat);
    if secs < 0 {
        lemma_decimal_digits((-secs) as nat);
    } else {
        lemma_decimal_digits(secs as nat);
    }
}

/// Reads an instant from a field.
pub fn parse_instant(field: &str) -> (r: Option<Instant>)
    ensures
        r.deep_view() == instant_of(field@),
{
    match parse_i64(field) {
        Some(secs) => Instant::from_seconds(secs),
        None => None,
    }
}

/// A change of screen name, as a value.
pub struct ScreenNameFields {
    pub detected_at: int,
    pub user_id: nat,
    pub verified: bool,
    pub protected: bool,
    pub followers_count: nat,
    pub previous_name: Seq<char>,
    pub new_name: Seq<char>,
    pub avatar_url: Seq<char>,
}

/// A change of screen name.
#[derive(Debug, Clone)]
pub struct ScreenNameRecord {
    pub detected_at: Instant,
    pub user_id: u64,
    pub verified: bool,
    pub protected: bool,
    pub followers_count: usize,
    pub previous_name: String,
    pub new_name: String,
    pub avatar_url: String,
}

impl View for ScreenNameRecord {
    type V = ScreenNameFields;

    open spec fn view(&self) -> ScreenNameFields {
        ScreenNameFields {
            detected_at: self.detected_at@,
            user_id: self.user_id as nat,
            verified: self.verified,
            protected: self.protected,
            followers_count: self.followers_count as nat,
            previous_name: self.previous_name@,
            new_name: self.new_name@,
            avatar_url: self.avatar_url@,
        }
    }
}

/// The screen-name change that a row denotes: eight fields, of which the
/// first five parse as instant, id, two flags and a count.
pub open spec fn screen_name_of(row: Seq<Seq<char>>) -> Option<ScreenNameFields> {
    if row.len() == SCREEN_NAME_FIELDS {
        match (
            instant_of(row[0]),
            parse_unsigned(row[1], u64::MAX as nat),
            parse_flag(row[2]),
            parse_flag(row[3]),
            parse_unsigned(row[4], usize::MAX as nat),
        ) {
            (
                Some(detected_at),
                Some(user_id),
                Some(verified),
                Some(protected),
                Some(followers_count),
            ) => Some(
                ScreenNameFields {
                    detected_at,
                    user_id,
                    verified,
                    protected,
                    followers_count,
                    previous_name: row[5],
                    new_name: row[6],
                    avatar_url: row[7],
                },
            ),
            _ => None,
        }
    } else {
        None
    }
}

/// The row that denotes a screen-name change, typed fields in their
/// shortest decimal form.
pub open spec fn screen_name_row(fields: ScreenNameFields) -> Seq<Seq<char>> {
    seq![
        signed_decimal(fields.detected_at),
        decimal(fields.user_id),
        flag_text(fields.verified),
        flag_text(fields.protected),
        decimal(fields.followers_count),
        fields.previous_name,
        fields.new_name,
        fields.avatar_url,
    ]
}

impl ScreenNameRecord {
    /// Reads a screen-name change from the fields of a row, or rejects the
    /// row.
    pub fn try_from(value: Vec<String>) -> (r: Result<ScreenNameRecord, Error>)
        ensures
            match screen_name_of(value.deep_view()) {
                Some(fields) => r matches Ok(record) && record@ == fields,
                None => r == Err::<ScreenNameRecord, Error>(Error::InvalidScreenNamesRecord(value)),
            },
    {
        if value.len() != SCREEN_NAME_FIELDS {
            return Err(Error::InvalidScreenNamesRecord(value));
        }
        let detected_at = parse_instant(value[0].as_str());
        let user_id = parse_u64(value[1].as_str());
        let verified = parse_bool(value[2].as_str());
        let protected = parse_bool(value[3].as_str());
        let followers_count = parse_usize(value[4].as_str());
        match (detected_at, user_id, verified, protected, followers_count) {
            (
                Some(detected_at),
                Some(user_id),
                Some(verified),
                Some(protected),
                Some(followers_count),
            ) => Ok(
                ScreenNameRecord {
                    detected_at,
                    user_id,
                    verified,
                    protected,
                    followers_count,
                    previous_name: value[5].clone(),
                    new_name: value[6].clone(),
                    avatar_url: value[7].clone(),
                },
            ),
            _ => Err(Error::InvalidScreenNamesRecord(value)),
        }
    }

    /// Writes the record back as the fields of a row.
    pub fn to_fields(&self) -> (row: Vec<String>)
        ensures
            row.deep_view() == screen_name_row(self@),
    {
        let mut row: Vec<String> = Vec::new();
        row.push(i64_to_string(self.detected_at.seconds()));
        row.push(u64_to_string(self.user_id));
        row.push(bool_to_string(self.verified));
        row.push(bool_to_string(self.protected));
        row.push(usize_to_string(self.followers_count));
        row.push(self.previous_name.clone());
        row.push(self.new_name.clone());
        row.push(self.avatar_url.clone());
        row
    }
}

/// Whether the typed fields are ones that a record can hold.
pub open spec fn screen_name_in_range(fields: ScreenNameFields) -> bool {
    &&& instant_in_range(fields.detected_at)
    &&& fields.user_id <= u64::MAX
    &&& fields.followers_count <= usize::MAX
}

/// Reading a row yields fields that a record can hold.
pub proof fn lemma_screen_name_of_in_range(row: Seq<Seq<char>>)
    requires
        screen_name_of(row) is Some,
    ensures
        screen_name_in_range(screen_name_of(row)->0),
{
}

/// Writing a screen-name change as a row and reading the row gives the same
/// change.
pub proof fn lemma_screen_name_write_read(fields: ScreenNameFields)
    requires
        screen_name_in_range(fields),
    ensures
        screen_name_of(screen_name_row(fields)) == Some(fields),
{
    lemma_instant_round_trip(fields.detected_at);
    lemma_unsigned_round_trip(fields.user_id, u64::MAX as nat);
    lemma_unsigned_round_trip(fields.followers_count, usize::MAX as nat);
    lemma_flag_round_trip(fields.verified);
    lemma_flag_round_trip(fields.protected);
}

/// Reading a valid row, writing the result and reading again changes
/// nothing: every typed value comes back as it was.
pub proof fn lemma_screen_name_round_trip(row: Seq<Seq<char>>)
    requires
        screen_name_of(row) is Some,
    ensures
        screen_name_of(screen_name_row(screen_name_of(row)->0)) == screen_name_of(row),
{
    lemma_screen_name_of_in_range(row);
    lemma_screen_name_write_read(screen_name_of(row)->0);
}

/// A suspension, as a value.
pub struct SuspensionFields {
    pub detected_at: int,
    pub reversed_at: Option<int>,
    pub user_id: nat,
    pub account_created_at: int,
    pub screen_name: Seq<char>,
    pub verified: bool,
    pub protected: bool,
    pub followers_count: nat,
    pub avatar_url: Seq<char>,
}

/// A suspension of a known account.
#[derive(Debug, Clone)]
pub struct SuspensionRecord {
    pub detected_at: Instant,
    pub reversed_at: Option<Instant>,
    pub user_id: u64,
    pub account_created_at: Instant,
    pub screen_name: String,
    pub verified: bool,
    pub protected: bool,
    pub followers_count: usize,
    pub avatar_url: String,
}

impl View for SuspensionRecord {
    type V = SuspensionFields;

    open spec fn view(&self) -> SuspensionFields {
        SuspensionFields {
            detected_at: self.detected_at@,
            reversed_at: self.reversed_at.deep_view(),
            user_id: self.user_id as nat,
            account_created_at: self.account_created_at@,
            screen_name: self.screen_name@,
            verified: self.verified,
            protected: self.protected,
            followers_count: self.followers_count as nat,
            avatar_url: self.avatar_url@,
        }
    }
}

/// The suspension that a row denotes: nine fields, of which the reversal
/// instant alone may be empty, and all but the screen name and the URL parse
/// as instant, id, flag or count.
pub open spec fn suspension_of(row: Seq<Seq<char>>) -> Option<SuspensionFields> {
    if row.len() == SUSPENSION_FIELDS {
        match (
            instant_of(row[0]),
            optional_instant_of(row[1]),
            parse_unsigned(row[2], u64::MAX as nat),
            instant_of(row[3]),
            parse_flag(row[5]),
            parse_flag(row[6]),
            parse_unsigned(row[7], usize::MAX as nat),
        ) {
            (
                Some(detected_at),
                Some(reversed_at),
                Some(user_id),
                Some(account_created_at),
                Some(verified),
                Some(protected),
                Some(followers_count),
            ) => Some(
                SuspensionFields {
                    detected_at,
                    reversed_at,
                    user_id,
                    account_created_at,
                    screen_name: row[4],
                    verified,
                    protected,
                    followers_count,
                    avatar_url: row[8],
                },
            ),
            _ => None,
        }
    } else {
        None
    }
}

/// The text of an optional instant: empty where there is none.
pub open spec fn optional_instant_text(instant: Option<int>) -> Seq<char> {
    match instant {
        Some(secs) => signed_decimal(secs),
        None => Seq::empty(),
    }
}

/// The row that denotes a suspension, typed fields in their shortest decimal
/// form.
pub open spec fn suspension_row(fields: SuspensionFields) -> Seq<Seq<char>> {
    seq![
        signed_decimal(fields.detected_at),
        optional_instant_text(fields.reversed_at),
        decimal(fields.user_id),
        signed_decimal(fields.account_created_at),
        fields.screen_name,
        flag_text(fields.verified),
        flag_text(fields.protected),
        decimal(fields.followers_count),
        fields.avatar_url,
    ]
}

/// How a suspension row that denotes no suspension is reported: under the
/// screen-name variant where it has nine fields, under the suspension
/// variant where it has not.
pub open spec fn suspension_rejection(value: Vec<String>) -> Error {
    if value@.len() == SUSPENSION_FIELDS {
        Error::InvalidScreenNamesRecord(value)
    } else {
        Error::InvalidSuspensionsRecord(value)
    }
}

/// Reads an optional instant from a field.
pub fn parse_optional_instant(field: &str) -> (r: Option<Option<Instant>>)
    ensures
        r.deep_view() == optional_instant_of(field@),
{
    if field.is_empty() {
        Some(None)
    } else {
        match parse_instant(field) {
            Some(instant) => Some(Some(instant)),
            None => None,
        }
    }
}

impl SuspensionRecord {
    /// Reads a suspension from the fields of a row, or rejects the row.
    pub fn try_from(value: Vec<String>) -> (r: Result<SuspensionRecord, Error>)
        ensures
            match suspension_of(value.deep_view()) {
                Some(fields) => r matches Ok(record) && record@ == fields,
                None => r == Err::<SuspensionRecord, Error>(suspension_rejection(value)),
            },
    {
        if value.len() != SUSPENSION_FIELDS {
            return Err(Error::InvalidSuspensionsRecord(value));
        }
        let detected_at = parse_instant(value[0].as_str());
        let reversed_at = parse_optional_instant(value[1].as_str());
        let user_id = parse_u64(value[2].as_str());
        let account_created_at = parse_instant(value[3].as_str());
        let verified = parse_bool(value[5].as_str());
        let protected = parse_bool(value[6].as_str());
        let followers_count = parse_usize(value[7].as_str());
        match (
            detected_at,
            reversed_at,
            user_id,
            account_created_at,
            verified,
            protected,
            followers_count,
        ) {
            (
                Some(detected_at),
                Some(reversed_at),
                Some(user_id),
                Some(account_created_at),
                Some(verified),
                Some(protected),
                Some(followers_count),
            ) => Ok(
                SuspensionRecord {
                    detected_at,
                    reversed_at,
                    user_id,
                    account_created_at,
                    screen_name: value[4].clone(),
                    verified,
                    protected,
                    followers_count,
                    avatar_url: value[8].clone(),
                },
            ),
            _ => Err(Error::InvalidScreenNamesRecord(value)),
        }
    }

    /// Writes the record back as the fields of a row.
    pub fn to_fields(&self) -> (row: Vec<String>)
        ensures
            row.deep_view() == suspension_row(self@),
    {
        let mut row: Vec<String> = Vec::new();
        row.push(i64_to_string(self.detected_at.seconds()));
        row.push(
            match &self.reversed_at {
                Some(instant) => i64_to_string(instant.seconds()),
                None => String::new(),
            },
        );
        row.push(u64_to_string(self.user_id));
        row.push(i64_to_string(self.account_created_at.seconds()));
        row.push(self.screen_name.clone());
        row.push(bool_to_string(self.verified));
        row.push(bool_to_string(self.protected));
        row.push(usize_to_string(self.followers_count));
        row.push(self.avatar_url.clone());
        row
    }
}

/// Whether the typed fields are ones that a record can hold.
pub open spec fn suspension_in_range(fields: SuspensionFields) -> bool {
    &&& instant_in_range(fields.detected_at)
    &&& fields.reversed_at matches Some(secs) ==> instant_in_range(secs)
    &&& instant_in_range(fields.account_created_at)
    &&& fields.user_id <= u64::MAX
    &&& fields.followers_count <= usize::MAX
}

/// Reading a row yields fields that a record can hold.
pub proof fn lemma_suspension_of_in_range(row: Seq<Seq<char>>)
    requires
        suspension_of(row) is Some,
    ensures
        suspension_in_range(suspension_of(row)->0),
{
}

/// Writing a suspension as a row and reading the row gives the same
/// suspension.
pub proof fn lemma_suspension_write_read(fields: SuspensionFields)
    requires
        suspension_in_range(fields),
    ensures
        suspension_of(suspension_row(fields)) == Some(fields),
{
    lemma_instant_round_trip(fields.detected_at);
    lemma_instant_round_trip(fields.account_created_at);
    if let Some(secs) = fields.reversed_at {
        lemma_instant_round_trip(secs);
    }
    lemma_unsigned_round_trip(fields.user_id, u64::MAX as nat);
    lemma_unsigned_round_trip(fields.followers_count, usize::MAX as nat);
    lemma_flag_round_trip(fields.verified);
    lemma_flag_round_trip(fields.protected);
}

/// Reading a valid row, writing the result and reading again changes
/// nothing: every typed value comes back as it was.
pub proof fn lemma_suspension_round_trip(row: Seq<Seq<char>>)
    requires
        suspension_of(row) is Some,
    ensures
        suspension_of(suspension_row(suspension_of(row)->0)) == suspension_of(row),
{
    lemma_suspension_of_in_range(row);
    lemma_suspension_write_read(suspension_of(row)->0);
}

/// A record of either kind.
#[derive(Debug, Clone)]
pub enum Record {
    ScreenName(ScreenNameRecord),
    Suspension(SuspensionRecord),
}

impl Record {
    /// The instant at which the change was detected, in seconds.
    pub open spec fn detected(&self) -> int {
        match self {
            Record::ScreenName(record) => record.detected_at@,
            Record::Suspension(record) => record.detected_at@,
        }
    }

    /// The follower count.
    pub open spec fn followers(&self) -> nat {
        match self {
            Record::ScreenName(record) => record.followers_count as nat,
            Record::Suspension(record) => record.followers_count as nat,
        }
    }

    /// The user id.
    pub open spec fn account(&self) -> nat {
        match self {
            Record::ScreenName(record) => record.user_id as nat,
            Record::Suspension(record) => record.user_id as nat,
        }
    }

    /// The URL of the profile image.
    pub open spec fn avatar(&self) -> Seq<char> {
        match self {
            Record::ScreenName(record) => record.avatar_url@,
            Record::Suspension(record) => record.avatar_url@,
        }
    }

    /// The instant at which the change was detected.
    pub fn detected_at(&self) -> (instant: Instant)
        ensures
            instant@ == self.detected(),
    {
        match self {
            Record::ScreenName(record) => record.detected_at,
            Record::Suspension(record) => record.detected_at,
        }
    }

    /// The follower count, by which records are ranked.
    pub fn followers_count(&self) -> (count: usize)
        ensures
            count == self.followers(),
    {
        match self {
            Record::ScreenName(record) => record.followers_count,
            Record::Suspension(record) => record.followers_count,
        }
    }

    /// The user id, which breaks ties in the ranking.
    pub fn user_id(&self) -> (id: u64)
        ensures
            id == self.account(),
    {
        match self {
            Record::ScreenName(record) => record.user_id,
            Record::Suspension(record) => record.user_id,
        }
    }

    /// The URL of the profile image.
    pub fn avatar_url(&self) -> (url: &str)
        ensures
            url@ == self.avatar(),
    {
        match self {
            Record::ScreenName(record) => record.avatar_url.as_str(),
            Record::Suspension(record) => record.avatar_url.as_str(),
        }
    }
}

/// What one row of the log contributes to a report: a record, or, for a
/// suspension of an account that is not known, the instant of detection
/// alone.
#[derive(Debug, Clone)]
pub enum Row {
    Known(Record),
    Unknown(Instant),
}

impl Row {
    /// The instant at which the change was detected, in seconds.
    pub open spec fn detected(&self) -> int {
        match self {
            Row::Known(record) => record.detected(),
            Row::Unknown(instant) => instant@,
        }
    }

    /// The instant at which the change was detected.
    pub fn detected_at(&self) -> (instant: Instant)
        ensures
            instant@ == self.detected(),
    {
        match self {
            Row::Known(record) => record.detected_at(),
            Row::Unknown(instant) => *instant,
        }
    }
}

/// Whether a suspension row is one of an unknown account: it reaches as far
/// as the account-creation field and has nothing in it.
pub open spec fn lacks_identity(row: Seq<Seq<char>>) -> bool {
    row.len() > IDENTITY_FIELD && row[IDENTITY_FIELD as int].len() == 0
}

/// The two kinds of report.
#[derive(Debug, Clone, Copy, PartialEq, Eq)]
pub enum ReportKind {
    ScreenNames,
    Suspensions,
}

/// Whether a row of the log of the given kind is accepted. A suspension row
/// of an unknown account needs nothing but its detection instant.
pub open spec fn accepts(kind: ReportKind, row: Seq<Seq<char>>) -> bool {
    match kind {
        ReportKind::ScreenNames => screen_name_of(row) is Some,
        ReportKind::Suspensions => if lacks_identity(row) {
            instant_of(row[0]) is Some
        } else {
            suspension_of(row) is Some
        },
    }
}

/// Whether `out` is what an accepted row contributes: the record that it
/// denotes, or, for an unknown account, its detection instant.
pub open spec fn denotes(kind: ReportKind, row: Seq<Seq<char>>, out: Row) -> bool {
    match kind {
        ReportKind::ScreenNames => out matches Row::Known(Record::ScreenName(record)) && Some(
            record@,
        ) == screen_name_of(row),
        ReportKind::Suspensions => if lacks_identity(row) {
            out matches Row::Unknown(instant) && Some(instant@) == instant_of(row[0])
        } else {
            out matches Row::Known(Record::Suspension(record)) && Some(record@) == suspension_of(
                row,
            )
        },
    }
}

/// The error with which a row that is not accepted is rejected.
pub open spec fn rejection(kind: ReportKind, value: Vec<String>) -> Error {
    match kind {
        ReportKind::ScreenNames => Error::InvalidScreenNamesRecord(value),
        ReportKind::Suspensions => if lacks_identity(value.deep_view()) {
            Error::InvalidSuspensionsRecord(value)
        } else {
            suspension_rejection(value)
        },
    }
}

/// Reads a row of the screen-name log.
pub fn read_screen_name_row(value: Vec<String>) -> (r: Result<Row, Error>)
    ensures
        match r {
            Ok(row) => accepts(ReportKind::ScreenNames, value.deep_view()) && denotes(
                ReportKind::ScreenNames,
                value.deep_view(),
                row,
            ),
            Err(error) => !accepts(ReportKind::ScreenNames, value.deep_view()) && error == rejection(
                ReportKind::ScreenNames,
                value,
            ),
        },
{
    match ScreenNameRecord::try_from(value) {
        Ok(record) => Ok(Row::Known(Record::ScreenName(record))),
        Err(error) => Err(error),
    }
}

/// Reads a row of the suspension log. A row with an empty account-creation
/// field stands for an unknown account and gives its detection instant
/// alone; any other row is read as a suspension.
pub fn read_suspension_row(value: Vec<String>) -> (r: Result<Row, Error>)
    ensures
        match r {
            Ok(row) => accepts(ReportKind::Suspensions, value.deep_view()) && denotes(
                ReportKind::Suspensions,
                value.deep_view(),
                row,
            ),
            Err(error) => !accepts(ReportKind::Suspensions, value.deep_view()) && error == rejection(
                ReportKind::Suspensions,
                value,
            ),
        },
{
    if value.len() <= IDENTITY_FIELD {
        return Err(Error::InvalidSuspensionsRecord(value));
    }
    if value[IDENTITY_FIELD].as_str().is_empty() {
        match parse_instant(value[0].as_str()) {
            Some(instant) => Ok(Row::Unknown(instant)),
            None => Err(Error::InvalidSuspensionsRecord(value)),
        }
    } else {
        match SuspensionRecord::try_from(value) {
            Ok(record) => Ok(Row::Known(Record::Suspension(record))),
            Err(error) => Err(error),
        }
    }
}

/// Reads a row of the log of the given kind.
pub fn read_row(kind: ReportKind, value: Vec<String>) -> (r: Result<Row, Error>)
    ensures
        match r {
            Ok(row) => accepts(kind, value.deep_view()) && denotes(kind, value.deep_view(), row),
            Err(error) => !accepts(kind, value.deep_view()) && error == rejection(kind, value),
        },
{
    match kind {
        ReportKind::ScreenNames => read_screen_name_row(value),
        ReportKind::Suspensions => read_suspension_row(value),
    }
}

/// Reads the rows of a log in order and stops at the first that is not
/// accepted.
pub fn read_rows(kind: ReportKind, values: Vec<Vec<String>>) -> (r: Result<Vec<Row>, Error>)
    ensures
        match r {
            Ok(rows) => {
                &&& rows@.len() == values@.len()
                &&& forall|i: int|
                    0 <= i < values@.len() ==> accepts(kind, (#[trigger] values@[i]).deep_view())
                        && denotes(kind, values@[i].deep_view(), rows@[i])
            },
            Err(error) => exists|i: int|
                {
                    &&& 0 <= i < values@.len()
                    &&& forall|j: int|
                        0 <= j < i ==> accepts(kind, (#[trigger] values@[j]).deep_view())
                    &&& !accepts(kind, (#[trigger] values@[i]).deep_view())
                    &&& error == rejection(kind, values@[i])
                },
        },
{
    let ghost all = values@;
    let mut rows: Vec<Row> = Vec::new();
    for value in it: values
        invariant
            it.seq() == all,
            rows@.len() == it.index(),
            forall|i: int|
                0 <= i < rows@.len() ==> accepts(kind, (#[trigger] all[i]).deep_view()) && denotes(
                    kind,
                    all[i].deep_view(),
                    rows@[i],
                ),
    {
        match read_row(kind, value) {
            Ok(row) => {
                rows.push(row);
            },
            Err(error) => {
                return Err(error);
            },
        }
    }
    Ok(rows)
}

} // verus!

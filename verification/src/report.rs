//! The report: a preamble, a table of contents, and one table per day.
use crate::anchor::{anchor, anchor_text};
use crate::calendar::{cell_text, heading_text};
use crate::cutoff::{
    lemma_cut_is_filter, lemma_shown_meets, meeting, meeting_len, shown, shown_len,
};
use crate::decimal::{decimal, u128_to_string};
use crate::grouping::{is_grouping_of, retained, retained_len, DateBucket};
use crate::record::{
    Record, ReportKind, Row, ScreenNameFields, ScreenNameRecord, SuspensionFields,
    SuspensionRecord,
};
use crate::thumbnail::{
    candidate_text, make_profile_image_thumbnail_url, source_text, thumbnail_candidate,
};
use vstd::prelude::*;

verus! {

/// The number of days that a report shows.
pub const REPORTED_LIMIT: usize = 10;

/// The follower count from which a screen-name change is shown.
pub const SCREEN_NAMES_FOLLOWERS_COUNT_LIMIT: usize = 200;

/// The follower count from which a suspension is shown.
pub const SUSPENSIONS_FOLLOWERS_COUNT_LIMIT: usize = 200;

/// The limits of a report.
#[derive(Debug, Clone, Copy)]
pub struct Config {
    /// The number of days shown, newest first.
    pub reported_limit: usize,
    /// The follower count from which a record is shown.
    pub followers_count_limit: usize,
}

impl Config {
    /// The limits in use for reports of the given kind.
    pub fn for_kind(kind: ReportKind) -> (config: Config)
        ensures
            config.reported_limit == REPORTED_LIMIT,
            config.followers_count_limit == match kind {
                ReportKind::ScreenNames => SCREEN_NAMES_FOLLOWERS_COUNT_LIMIT,
                ReportKind::Suspensions => SUSPENSIONS_FOLLOWERS_COUNT_LIMIT,
            },
    {
        match kind {
            ReportKind::ScreenNames => Config {
                reported_limit: REPORTED_LIMIT,
                followers_count_limit: SCREEN_NAMES_FOLLOWERS_COUNT_LIMIT,
            },
            ReportKind::Suspensions => Config {
                reported_limit: REPORTED_LIMIT,
                followers_count_limit: SUSPENSIONS_FOLLOWERS_COUNT_LIMIT,
            },
        }
    }
}

/// The mark of a protected account.
pub const PROTECTED_MARK: &'static str = "\u{1F512}";

/// The mark of a verified account.
pub const VERIFIED_MARK: &'static str = "\u{2714}\u{FE0F}";

/// What stands before the follower limit in the preamble of a screen-name
/// report.
pub const SCREEN_NAMES_OPENING: &'static str =
    "# Screen name changes\nThis report tracks screen name changes for several million far-right and far-right adjacent accounts on Twitter\n(including a lot of crypto / NFT shit, some spam, antivaxxers, etc.).\n\nThis page presents the last ten days of available data for all users with more than ";

/// What stands behind the follower limit in the preamble of a screen-name
/// report.
pub const SCREEN_NAMES_NOTES: &'static str =
    " followers.\nPlease note:\n* The date listed indicates the day the change was detected, and in some cases it may have happened earlier.\n* The \"Twitter ID\" column provides a stable link for the account in cases where the screen name has been changed again.\n* Some accounts may have been suspended or deactivated since being added to the report.\n* There's a lot of potentially offensive content here, including racial slurs and obscenity.\n\n## Contents\n";

/// The note that closes a screen-name report.
pub const SCREEN_NAMES_CLOSING: &'static str =
    "\nThe full history of all detected changes for all tracked users is available in the [`data.csv`](./data.csv) file.\n";

/// What stands before the follower limit in the preamble of a suspension
/// report.
pub const SUSPENSIONS_OPENING: &'static str =
    "# Suspensions\nThis report tracks suspensions for several million far-right and far-right adjacent accounts on Twitter\n(including a lot of crypto / NFT shit, some spam, antivaxxers, etc.).\n\nThis page presents the last ten days of available data for all users with more than ";

/// What stands behind the follower limit in the preamble of a suspension
/// report.
pub const SUSPENSIONS_NOTES: &'static str =
    " followers.\nPlease note:\n* The dates listed indicate when the suspension or reversal was detected, and in some cases it may have happened earlier.\n* In some cases the screen name may have been changed before the account was suspended.\n* There's a lot of potentially offensive content here, including racial slurs and obscenity.\n\n## Contents\n";

/// The note that closes a suspension report.
pub const SUSPENSIONS_CLOSING: &'static str =
    "\nThe full history of all detected suspensions for all tracked users is available in the [`data.csv`](./data.csv) file.\n";

/// The head of the table of a screen-name report.
pub const SCREEN_NAMES_TABLE_HEAD: &'static str =
    "<table>\n<tr><th></th><th align=\"left\">Twitter ID</th><th align=\"left\">Previous screen name</th>\n<th align=\"left\">New screen name</th><th align=\"left\">Status</th><th align=\"left\">Follower count</th></tr>\n";

/// The head of the table of a suspension report.
pub const SUSPENSIONS_TABLE_HEAD: &'static str =
    "<table>\n<tr><th></th><th align=\"left\">Twitter ID</th><th align=\"left\">Screen name</th>\n<th align=\"left\">Created</th><th align=\"left\">Reversed</th>\n<th align=\"left\">Status</th><th align=\"left\">Follower count</th></tr>\n";

/// The status column: the mark of a protected account, then that of a
/// verified one, with nothing between them.
pub open spec fn status_text(protected: bool, verified: bool) -> Seq<char> {
    (if protected {
        PROTECTED_MARK@
    } else {
        Seq::empty()
    }) + (if verified {
        VERIFIED_MARK@
    } else {
        Seq::empty()
    })
}

/// The thumbnail: an image with `source` that links to the profile image.
pub open spec fn image_text(url: Seq<char>, source: Seq<char>) -> Seq<char> {
    "<a href=\""@ + url + "\"><img src=\""@ + source
        + "\" width=\"40px\" height=\"40px\" align=\"center\"/></a>"@
}

/// The link that finds an account by its id.
pub open spec fn id_link_text(id: nat) -> Seq<char> {
    "<a href=\"https://twitter.com/intent/user?user_id="@ + decimal(id) + "\">"@ + decimal(id)
        + "</a>"@
}

/// The link to the profile of a screen name.
pub open spec fn profile_link_text(name: Seq<char>) -> Seq<char> {
    "<a href=\"https://twitter.com/"@ + name + "\">"@ + name + "</a>"@
}

/// The table row of a screen-name change.
pub open spec fn screen_name_line(record: ScreenNameFields, source: Seq<char>) -> Seq<char> {
    "<tr><td>"@ + image_text(record.avatar_url, source) + "</td><td>"@ + id_link_text(
        record.user_id,
    ) + "</td><td>"@ + record.previous_name + "</td><td>"@ + profile_link_text(record.new_name)
        + "</td><td align=\"center\">"@ + status_text(record.protected, record.verified)
        + "</td><td>"@ + decimal(record.followers_count) + "</td></tr>\n"@
}

/// The day of a reversal as a table cell shows it: nothing where the
/// suspension was not reversed.
pub open spec fn reversal_text(reversed_at: Option<int>) -> Seq<char> {
    match reversed_at {
        Some(secs) => cell_text(secs),
        None => Seq::empty(),
    }
}

/// The table row of a suspension.
pub open spec fn suspension_line(record: SuspensionFields, source: Seq<char>) -> Seq<char> {
    "<tr><td>"@ + image_text(record.avatar_url, source) + "</td><td>"@ + id_link_text(
        record.user_id,
    ) + "</td><td>"@ + profile_link_text(record.screen_name) + "</td><td>"@ + cell_text(
        record.account_created_at,
    ) + "</td><td>"@ + reversal_text(record.reversed_at) + "</td><td align=\"center\">"@
        + status_text(record.protected, record.verified) + "</td><td>"@ + decimal(
        record.followers_count,
    ) + "</td></tr>\n"@
}

/// The table row of a record, given the thumbnail paths found on disk.
pub open spec fn line_text(record: Record, present: Seq<Seq<char>>) -> Seq<char> {
    match record {
        Record::ScreenName(r) => screen_name_line(r@, source_text(r.avatar_url@, present)),
        Record::Suspension(r) => suspension_line(r@, source_text(r.avatar_url@, present)),
    }
}

/// The table rows of a run of records.
pub open spec fn lines_text(records: Seq<Record>, present: Seq<Seq<char>>) -> Seq<char>
    decreases records.len(),
{
    if records.len() == 0 {
        Seq::empty()
    } else {
        lines_text(records.drop_last(), present) + line_text(records.last(), present)
    }
}

/// The status column of a row.
pub fn status(protected: bool, verified: bool) -> (text: String)
    ensures
        text@ == status_text(protected, verified),
{
    let mut text = String::new();
    if protected {
        text.append(PROTECTED_MARK);
    }
    if verified {
        text.append(VERIFIED_MARK);
    }
    text
}

/// The thumbnail cell of a row.
pub fn image(url: &str, source: &str) -> (text: String)
    ensures
        text@ == image_text(url@, source@),
{
    let mut text = String::from_str("<a href=\"");
    text.append(url);
    text.append("\"><img src=\"");
    text.append(source);
    text.append("\" width=\"40px\" height=\"40px\" align=\"center\"/></a>");
    text
}

/// The id cell of a row.
pub fn id_link(id: u64) -> (text: String)
    ensures
        text@ == id_link_text(id as nat),
{
    let number = u128_to_string(id as u128);
    let mut text = String::from_str("<a href=\"https://twitter.com/intent/user?user_id=");
    text.append(number.as_str());
    text.append("\">");
    text.append(number.as_str());
    text.append("</a>");
    text
}

/// The screen-name cell of a row.
pub fn profile_link(name: &str) -> (text: String)
    ensures
        text@ == profile_link_text(name@),
{
    let mut text = String::from_str("<a href=\"https://twitter.com/");
    text.append(name);
    text.append("\">");
    text.append(name);
    text.append("</a>");
    text
}

/// Writes the table row of a screen-name change with the given image source.
pub fn screen_name_row(record: &ScreenNameRecord, source: &str) -> (text: String)
    ensures
        text@ == screen_name_line(record@, source@),
{
    let mut text = String::from_str("<tr><td>");
    text.append(image(record.avatar_url.as_str(), source).as_str());
    text.append("</td><td>");
    text.append(id_link(record.user_id).as_str());
    text.append("</td><td>");
    text.append(record.previous_name.as_str());
    text.append("</td><td>");
    text.append(profile_link(record.new_name.as_str()).as_str());
    text.append("</td><td align=\"center\">");
    text.append(status(record.protected, record.verified).as_str());
    text.append("</td><td>");
    text.append(u128_to_string(record.followers_count as u128).as_str());
    text.append("</td></tr>\n");
    text
}

/// Writes the table row of a suspension with the given image source.
pub fn suspension_row(record: &SuspensionRecord, source: &str) -> (text: String)
    ensures
        text@ == suspension_line(record@, source@),
{
    let reversal = match &record.reversed_at {
        Some(instant) => instant.cell(),
        None => String::new(),
    };
    let mut text = String::from_str("<tr><td>");
    text.append(image(record.avatar_url.as_str(), source).as_str());
    text.append("</td><td>");
    text.append(id_link(record.user_id).as_str());
    text.append("</td><td>");
    text.append(profile_link(record.screen_name.as_str()).as_str());
    text.append("</td><td>");
    text.append(record.account_created_at.cell().as_str());
    text.append("</td><td>");
    text.append(reversal.as_str());
    text.append("</td><td align=\"center\">");
    text.append(status(record.protected, record.verified).as_str());
    text.append("</td><td>");
    text.append(u128_to_string(record.followers_count as u128).as_str());
    text.append("</td></tr>\n");
    text
}

/// Writes the table row of a record. The image is the local thumbnail where
/// the profile image names one that is among `present`, else the profile
/// image itself.
pub fn render_row(record: &Record, present: &Vec<String>) -> (text: String)
    ensures
        text@ == line_text(*record, present.deep_view()),
{
    match record {
        Record::ScreenName(r) => {
            let source = make_profile_image_thumbnail_url(r.avatar_url.as_str(), present);
            screen_name_row(r, source.as_str())
        },
        Record::Suspension(r) => {
            let source = make_profile_image_thumbnail_url(r.avatar_url.as_str(), present);
            suspension_row(r, source.as_str())
        },
    }
}

/// What stands between the two counts of a section's summary.
pub open spec fn found_text(kind: ReportKind) -> Seq<char> {
    match kind {
        ReportKind::ScreenNames => " screen name changes, with "@,
        ReportKind::Suspensions => " suspensions, with "@,
    }
}

/// What stands between the count and the anchor of a contents entry.
pub open spec fn entry_noun_text(kind: ReportKind) -> Seq<char> {
    match kind {
        ReportKind::ScreenNames => " changes found)](#"@,
        ReportKind::Suspensions => " suspensions found)](#"@,
    }
}

/// The head of a table.
pub open spec fn table_head_text(kind: ReportKind) -> Seq<char> {
    match kind {
        ReportKind::ScreenNames => SCREEN_NAMES_TABLE_HEAD@,
        ReportKind::Suspensions => SUSPENSIONS_TABLE_HEAD@,
    }
}

/// The preamble: title, notes and caveats of the kind, with the follower
/// limit written into them, down to the heading of the contents.
pub open spec fn preamble_text(kind: ReportKind, cutoff: nat) -> Seq<char> {
    match kind {
        ReportKind::ScreenNames => SCREEN_NAMES_OPENING@ + decimal(cutoff) + SCREEN_NAMES_NOTES@,
        ReportKind::Suspensions => SUSPENSIONS_OPENING@ + decimal(cutoff) + SUSPENSIONS_NOTES@,
    }
}

/// The note that closes a report: where the full history is to be found.
pub open spec fn closing_text(kind: ReportKind) -> Seq<char> {
    match kind {
        ReportKind::ScreenNames => SCREEN_NAMES_CLOSING@,
        ReportKind::Suspensions => SUSPENSIONS_CLOSING@,
    }
}

/// The contents entry of a day: its heading, the number of rows detected on
/// it, known or not, and the anchor of its section.
pub open spec fn entry_text(kind: ReportKind, bucket: DateBucket) -> Seq<char> {
    "* ["@ + heading_text(bucket.date.witness()) + " ("@ + decimal(bucket.total())
        + entry_noun_text(kind) + anchor_text(heading_text(bucket.date.witness())) + ")\n"@
}

/// The section of a day: its heading, the number of rows detected on it
/// against the number of records that meet the cutoff, and the table of the
/// records before the first that falls below the cutoff.
pub open spec fn section_text(
    kind: ReportKind,
    bucket: DateBucket,
    cutoff: nat,
    present: Seq<Seq<char>>,
) -> Seq<char> {
    "\n## "@ + heading_text(bucket.date.witness()) + "\nFound "@ + decimal(bucket.total())
        + found_text(kind) + decimal(meeting(bucket.records@, cutoff).len())
        + " included here.\n"@ + table_head_text(kind) + lines_text(
        shown(bucket.records@, cutoff),
        present,
    ) + "</table>\n"@
}

/// The contents entries of a run of buckets.
pub open spec fn contents_text(kind: ReportKind, buckets: Seq<DateBucket>) -> Seq<char>
    decreases buckets.len(),
{
    if buckets.len() == 0 {
        Seq::empty()
    } else {
        contents_text(kind, buckets.drop_last()) + entry_text(kind, buckets.last())
    }
}

/// The sections of a run of buckets.
pub open spec fn sections_text(
    kind: ReportKind,
    buckets: Seq<DateBucket>,
    cutoff: nat,
    present: Seq<Seq<char>>,
) -> Seq<char>
    decreases buckets.len(),
{
    if buckets.len() == 0 {
        Seq::empty()
    } else {
        sections_text(kind, buckets.drop_last(), cutoff, present) + section_text(
            kind,
            buckets.last(),
            cutoff,
            present,
        )
    }
}

/// The report: the preamble, the contents entries and the sections of the
/// first `limit` buckets, and the closing note.
pub open spec fn report_text(
    kind: ReportKind,
    buckets: Seq<DateBucket>,
    limit: nat,
    cutoff: nat,
    present: Seq<Seq<char>>,
) -> Seq<char> {
    preamble_text(kind, cutoff) + contents_text(kind, retained(buckets, limit)) + sections_text(
        kind,
        retained(buckets, limit),
        cutoff,
        present,
    ) + closing_text(kind)
}

/// The thumbnail paths that a run of records names.
pub open spec fn candidates_of(records: Seq<Record>) -> Seq<Seq<char>>
    decreases records.len(),
{
    if records.len() == 0 {
        Seq::empty()
    } else {
        let rest = candidates_of(records.drop_last());
        match candidate_text(records.last().avatar()) {
            Some(path) => rest.push(path),
            None => rest,
        }
    }
}

/// The thumbnail paths that the shown records of a run of buckets name.
pub open spec fn report_candidates(buckets: Seq<DateBucket>, cutoff: nat) -> Seq<Seq<char>>
    decreases buckets.len(),
{
    if buckets.len() == 0 {
        Seq::empty()
    } else {
        report_candidates(buckets.drop_last(), cutoff) + candidates_of(
            shown(buckets.last().records@, cutoff),
        )
    }
}

/// Writes the table rows of the records before the first that falls below
/// the cutoff.
pub fn render_rows(records: &Vec<Record>, cutoff: usize, present: &Vec<String>) -> (text: String)
    ensures
        text@ == lines_text(shown(records@, cutoff as nat), present.deep_view()),
{
    let count = shown_len(records, cutoff);
    let ghost visible = shown(records@, cutoff as nat);
    let mut text = String::new();
    let mut i: usize = 0;
    while i < count
        invariant
            i <= count <= records@.len(),
            visible == records@.take(count as int),
            text@ == lines_text(visible.take(i as int), present.deep_view()),
        decreases count - i,
    {
        assert(visible.take(i + 1).drop_last() =~= visible.take(i as int));
        text.append(render_row(&records[i], present).as_str());
        i = i + 1;
    }
    assert(visible.take(count as int) =~= visible);
    text
}

/// The number of rows detected on the day of a bucket, known or not.
pub fn total_of(bucket: &DateBucket) -> (total: u128)
    ensures
        total == bucket.total(),
{
    bucket.records.len() as u128 + bucket.unknown_count as u128
}

/// Writes the contents entry of a day.
pub fn render_entry(kind: ReportKind, bucket: &DateBucket) -> (text: String)
    ensures
        text@ == entry_text(kind, *bucket),
{
    let heading = bucket.date.heading();
    let mut text = String::from_str("* [");
    text.append(heading.as_str());
    text.append(" (");
    text.append(u128_to_string(total_of(bucket)).as_str());
    match kind {
        ReportKind::ScreenNames => text.append(" changes found)](#"),
        ReportKind::Suspensions => text.append(" suspensions found)](#"),
    }
    text.append(anchor(heading.as_str()).as_str());
    text.append(")\n");
    text
}

/// Writes the section of a day.
pub fn render_section(
    kind: ReportKind,
    bucket: &DateBucket,
    cutoff: usize,
    present: &Vec<String>,
) -> (text: String)
    ensures
        text@ == section_text(kind, *bucket, cutoff as nat, present.deep_view()),
{
    let mut text = String::from_str("\n## ");
    text.append(bucket.date.heading().as_str());
    text.append("\nFound ");
    text.append(u128_to_string(total_of(bucket)).as_str());
    match kind {
        ReportKind::ScreenNames => text.append(" screen name changes, with "),
        ReportKind::Suspensions => text.append(" suspensions, with "),
    }
    text.append(u128_to_string(meeting_len(&bucket.records, cutoff) as u128).as_str());
    text.append(" included here.\n");
    match kind {
        ReportKind::ScreenNames => text.append(SCREEN_NAMES_TABLE_HEAD),
        ReportKind::Suspensions => text.append(SUSPENSIONS_TABLE_HEAD),
    }
    text.append(render_rows(&bucket.records, cutoff, present).as_str());
    text.append("</table>\n");
    text
}

/// Writes the preamble of a report.
pub fn render_preamble(kind: ReportKind, cutoff: usize) -> (text: String)
    ensures
        text@ == preamble_text(kind, cutoff as nat),
{
    let number = u128_to_string(cutoff as u128);
    match kind {
        ReportKind::ScreenNames => {
            let mut text = String::from_str(SCREEN_NAMES_OPENING);
            text.append(number.as_str());
            text.append(SCREEN_NAMES_NOTES);
            text
        },
        ReportKind::Suspensions => {
            let mut text = String::from_str(SUSPENSIONS_OPENING);
            text.append(number.as_str());
            text.append(SUSPENSIONS_NOTES);
            text
        },
    }
}

/// Writes the report on `buckets`: the preamble of the kind, a contents
/// entry and a section for each of the first `config.reported_limit`
/// buckets, and the closing note. In each section the table ends before the
/// first record with fewer than `config.followers_count_limit` followers.
/// `present` holds the thumbnail paths found on disk.
pub fn render_report(
    kind: ReportKind,
    buckets: &Vec<DateBucket>,
    config: &Config,
    present: &Vec<String>,
) -> (text: String)
    ensures
        text@ == report_text(
            kind,
            buckets@,
            config.reported_limit as nat,
            config.followers_count_limit as nat,
            present.deep_view(),
        ),
{
    let count = retained_len(buckets, config.reported_limit);
    let cutoff = config.followers_count_limit;
    let ghost kept = retained(buckets@, config.reported_limit as nat);
    let mut text = render_preamble(kind, cutoff);
    let mut contents = String::new();
    let mut i: usize = 0;
    while i < count
        invariant
            i <= count <= buckets@.len(),
            kept == buckets@.take(count as int),
            contents@ == contents_text(kind, kept.take(i as int)),
        decreases count - i,
    {
        assert(kept.take(i + 1).drop_last() =~= kept.take(i as int));
        contents.append(render_entry(kind, &buckets[i]).as_str());
        i = i + 1;
    }
    let mut sections = String::new();
    let mut j: usize = 0;
    while j < count
        invariant
            j <= count <= buckets@.len(),
            kept == buckets@.take(count as int),
            sections@ == sections_text(
                kind,
                kept.take(j as int),
                cutoff as nat,
                present.deep_view(),
            ),
        decreases count - j,
    {
        assert(kept.take(j + 1).drop_last() =~= kept.take(j as int));
        sections.append(render_section(kind, &buckets[j], cutoff, present).as_str());
        j = j + 1;
    }
    assert(kept.take(count as int) =~= kept);
    text.append(contents.as_str());
    text.append(sections.as_str());
    match kind {
        ReportKind::ScreenNames => text.append(SCREEN_NAMES_CLOSING),
        ReportKind::Suspensions => text.append(SUSPENSIONS_CLOSING),
    }
    text
}

/// Adds to `paths` the thumbnail paths that the shown records name.
fn add_candidates(paths: &mut Vec<String>, records: &Vec<Record>, cutoff: usize)
    ensures
        final(paths).deep_view() == old(paths).deep_view() + candidates_of(
            shown(records@, cutoff as nat),
        ),
{
    let count = shown_len(records, cutoff);
    let ghost visible = shown(records@, cutoff as nat);
    let ghost start = paths.deep_view();
    let mut i: usize = 0;
    while i < count
        invariant
            i <= count <= records@.len(),
            visible == records@.take(count as int),
            paths.deep_view() == start + candidates_of(visible.take(i as int)),
        decreases count - i,
    {
        assert(visible.take(i + 1).drop_last() =~= visible.take(i as int));
        let ghost before = paths.deep_view();
        match thumbnail_candidate(records[i].avatar_url()) {
            Some(path) => {
                paths.push(path);
                assert(before.push(path@) =~= start + candidates_of(
                    visible.take(i as int),
                ).push(path@));
            },
            None => {},
        }
        i = i + 1;
    }
    assert(visible.take(count as int) =~= visible);
}

/// The thumbnail paths to look for before the report is written: those
/// that the records shown in it name, in the order of the report. Records
/// below the cutoff and buckets beyond the limit are not asked about.
pub fn thumbnail_candidates(buckets: &Vec<DateBucket>, config: &Config) -> (paths: Vec<String>)
    ensures
        paths.deep_view() == report_candidates(
            retained(buckets@, config.reported_limit as nat),
            config.followers_count_limit as nat,
        ),
{
    let count = retained_len(buckets, config.reported_limit);
    let cutoff = config.followers_count_limit;
    let ghost kept = retained(buckets@, config.reported_limit as nat);
    let mut paths: Vec<String> = Vec::new();
    let mut i: usize = 0;
    while i < count
        invariant
            i <= count <= buckets@.len(),
            kept == buckets@.take(count as int),
            paths.deep_view() == report_candidates(kept.take(i as int), cutoff as nat),
        decreases count - i,
    {
        assert(kept.take(i + 1).drop_last() =~= kept.take(i as int));
        add_candidates(&mut paths, &buckets[i].records, cutoff);
        i = i + 1;
    }
    assert(kept.take(count as int) =~= kept);
    paths
}

/// In a report on grouped rows, the rows of every table run from most
/// followers to fewest and, among records with as many followers, from the
/// lowest user id up.
pub proof fn lemma_tables_in_rank_order(
    buckets: Seq<DateBucket>,
    rows: Seq<Row>,
    limit: nat,
    cutoff: nat,
    b: int,
    i: int,
    j: int,
)
    requires
        is_grouping_of(buckets, rows),
        0 <= b < retained(buckets, limit).len(),
        0 <= i <= j < shown(retained(buckets, limit)[b].records@, cutoff).len(),
    ensures
        ({
            let table = shown(retained(buckets, limit)[b].records@, cutoff);
            &&& table[i].followers() >= table[j].followers()
            &&& table[i].followers() == table[j].followers() ==> table[i].account()
                <= table[j].account()
        }),
{
    lemma_shown_meets(retained(buckets, limit)[b].records@, cutoff);
}

/// In a report on grouped rows, the rows of every table are exactly the
/// records of the day that have at least `cutoff` followers, and they are
/// the leading records of the bucket.
pub proof fn lemma_tables_hold_what_meets_the_cutoff(
    buckets: Seq<DateBucket>,
    rows: Seq<Row>,
    limit: nat,
    cutoff: nat,
    b: int,
)
    requires
        is_grouping_of(buckets, rows),
        0 <= b < retained(buckets, limit).len(),
    ensures
        ({
            let records = retained(buckets, limit)[b].records@;
            let table = shown(records, cutoff);
            &&& table == meeting(records, cutoff)
            &&& table == records.take(table.len() as int)
            &&& forall|k: int|
                0 <= k < records.len() ==> (#[trigger] records[k].followers() >= cutoff <==> k
                    < table.len())
        }),
{
    lemma_cut_is_filter(retained(buckets, limit)[b].records@, cutoff);
}

} // verus!

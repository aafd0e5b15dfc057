use change_report::calendar::Instant;
use change_report::record::{
    read_row, read_rows, read_screen_name_row, read_suspension_row, Error, Record, ReportKind,
    Row, ScreenNameRecord, SuspensionRecord, IDENTITY_FIELD, SCREEN_NAME_FIELDS,
    SUSPENSION_FIELDS,
};
use change_report::report::{render_row, suspension_row};
use change_report::thumbnail::make_profile_image_thumbnail_url;

fn fields(line: &str) -> Vec<String> {
    line.split(',').map(|field| field.to_string()).collect()
}

const SCREEN_NAME_LINE: &str =
    "1609459200,42,true,false,500,oldname,newname,https://pbs.twimg.com/profile_images/42/abc_normal.jpg";

const SUSPENSION_LINE: &str =
    "1609459200,1609632000,42,1234567890,somebody,false,true,1500,https://pbs.twimg.com/profile_images/42/abc_normal.jpg";

const UNREVERSED_LINE: &str =
    "1609459200,,42,1234567890,somebody,true,true,1500,https://pbs.twimg.com/profile_images/42/abc_normal.jpg";

#[test]
fn a_screen_name_row_is_read() {
    let record = ScreenNameRecord::try_from(fields(SCREEN_NAME_LINE)).unwrap();
    assert_eq!(record.detected_at.seconds(), 1_609_459_200);
    assert_eq!(record.detected_at.cell(), "2021-01-01");
    assert_eq!(record.user_id, 42);
    assert!(record.verified);
    assert!(!record.protected);
    assert_eq!(record.followers_count, 500);
    assert_eq!(record.previous_name, "oldname");
    assert_eq!(record.new_name, "newname");
    assert_eq!(record.avatar_url, "https://pbs.twimg.com/profile_images/42/abc_normal.jpg");
}

#[test]
fn a_screen_name_row_without_thumbnail_shows_the_remote_image() {
    let record = ScreenNameRecord::try_from(fields(SCREEN_NAME_LINE)).unwrap();
    let source = make_profile_image_thumbnail_url(&record.avatar_url, &vec![]);
    assert_eq!(source, "https://pbs.twimg.com/profile_images/42/abc_normal.jpg");
    let line = render_row(&Record::ScreenName(record), &vec![]);
    assert!(line.contains(
        "<img src=\"https://pbs.twimg.com/profile_images/42/abc_normal.jpg\" width=\"40px\""
    ));
}

#[test]
fn text_fields_are_taken_as_they_are() {
    let row = vec![
        "0".to_string(),
        "1".to_string(),
        "false".to_string(),
        "false".to_string(),
        "0".to_string(),
        " old, \"name\" ".to_string(),
        "".to_string(),
        "not a url".to_string(),
    ];
    let record = ScreenNameRecord::try_from(row).unwrap();
    assert_eq!(record.previous_name, " old, \"name\" ");
    assert_eq!(record.new_name, "");
    assert_eq!(record.avatar_url, "not a url");
}

#[test]
fn a_row_one_field_short_is_rejected_with_the_row() {
    let row = fields("1609459200,42,true,false,500,oldname,newname");
    assert_eq!(row.len(), 7);
    match ScreenNameRecord::try_from(row.clone()) {
        Err(Error::InvalidScreenNamesRecord(raw)) => assert_eq!(raw, row),
        other => panic!("unexpected: {:?}", other),
    }
}

#[test]
fn a_row_one_field_long_is_rejected_with_the_row() {
    let row = fields("1609459200,42,true,false,500,oldname,newname,url,extra");
    assert_eq!(
        ScreenNameRecord::try_from(row.clone()).unwrap_err(),
        Error::InvalidScreenNamesRecord(row)
    );
    assert_eq!(
        ScreenNameRecord::try_from(vec![]).unwrap_err(),
        Error::InvalidScreenNamesRecord(vec![])
    );
}

#[test]
fn each_typed_field_of_a_screen_name_row_must_parse() {
    let bad = [
        "x,42,true,false,500,a,b,c",
        ",42,true,false,500,a,b,c",
        "1609459200.0,42,true,false,500,a,b,c",
        "1609459200,-42,true,false,500,a,b,c",
        "1609459200,,true,false,500,a,b,c",
        "1609459200,42,yes,false,500,a,b,c",
        "1609459200,42,true,0,500,a,b,c",
        "1609459200,42,true,false,-1,a,b,c",
        "1609459200,42,true,false,5e2,a,b,c",
        "1609459200,18446744073709551616,true,false,500,a,b,c",
        "9223372036854775807,42,true,false,500,a,b,c",
    ];
    for line in bad {
        let row = fields(line);
        assert_eq!(
            ScreenNameRecord::try_from(row.clone()).unwrap_err(),
            Error::InvalidScreenNamesRecord(row),
            "{}",
            line
        );
    }
}

#[test]
fn a_screen_name_record_is_written_back() {
    let record = ScreenNameRecord::try_from(fields(SCREEN_NAME_LINE)).unwrap();
    assert_eq!(record.to_fields(), fields(SCREEN_NAME_LINE));
    let padded = fields("+0001609459200,+42,true,false,0500,a,b,c");
    let record = ScreenNameRecord::try_from(padded).unwrap();
    assert_eq!(record.to_fields(), fields("1609459200,42,true,false,500,a,b,c"));
}

#[test]
fn reading_writing_and_reading_a_screen_name_row_changes_nothing() {
    for line in [
        SCREEN_NAME_LINE,
        "-1,0,false,true,0,,,",
        "+86400,18446744073709551615,false,false,+7,x,y,z",
    ] {
        let first = ScreenNameRecord::try_from(fields(line)).unwrap();
        let second = ScreenNameRecord::try_from(first.to_fields()).unwrap();
        assert_eq!(second.detected_at.seconds(), first.detected_at.seconds());
        assert_eq!(second.user_id, first.user_id);
        assert_eq!(second.verified, first.verified);
        assert_eq!(second.protected, first.protected);
        assert_eq!(second.followers_count, first.followers_count);
        assert_eq!(second.previous_name, first.previous_name);
        assert_eq!(second.new_name, first.new_name);
        assert_eq!(second.avatar_url, first.avatar_url);
        assert_eq!(second.to_fields(), first.to_fields());
    }
}

#[test]
fn a_suspension_row_is_read() {
    let record = SuspensionRecord::try_from(fields(SUSPENSION_LINE)).unwrap();
    assert_eq!(record.detected_at.seconds(), 1_609_459_200);
    assert_eq!(record.reversed_at.map(|instant| instant.seconds()), Some(1_609_632_000));
    assert_eq!(record.user_id, 42);
    assert_eq!(record.account_created_at.seconds(), 1_234_567_890);
    assert_eq!(record.screen_name, "somebody");
    assert!(!record.verified);
    assert!(record.protected);
    assert_eq!(record.followers_count, 1500);
    assert_eq!(record.avatar_url, "https://pbs.twimg.com/profile_images/42/abc_normal.jpg");
}

#[test]
fn a_suspension_without_reversal_has_an_empty_reversed_column() {
    let record = SuspensionRecord::try_from(fields(UNREVERSED_LINE)).unwrap();
    assert!(record.reversed_at.is_none());
    let line = suspension_row(&record, "img");
    assert_eq!(
        line,
        "<tr><td><a href=\"https://pbs.twimg.com/profile_images/42/abc_normal.jpg\"><img src=\"img\" width=\"40px\" height=\"40px\" align=\"center\"/></a></td><td><a href=\"https://twitter.com/intent/user?user_id=42\">42</a></td><td><a href=\"https://twitter.com/somebody\">somebody</a></td><td>2009-02-13</td><td></td><td align=\"center\">\u{1F512}\u{2714}\u{FE0F}</td><td>1500</td></tr>\n"
    );
}

#[test]
fn a_reversed_suspension_shows_the_day_of_reversal() {
    let record = SuspensionRecord::try_from(fields(SUSPENSION_LINE)).unwrap();
    let line = suspension_row(&record, "img");
    assert!(line.contains("<td>2009-02-13</td><td>2021-01-03</td><td align=\"center\">\u{1F512}</td>"));
}

#[test]
fn a_suspension_row_of_the_wrong_width_is_rejected() {
    for line in ["", "1,2", "1609459200,,42,1234567890,somebody,true,true,1500", "1,,2,3,n,true,true,4,u,x"] {
        let row = fields(line);
        assert_eq!(
            SuspensionRecord::try_from(row.clone()).unwrap_err(),
            Error::InvalidSuspensionsRecord(row),
            "{}",
            line
        );
    }
}

#[test]
fn a_suspension_row_whose_fields_do_not_parse_is_rejected() {
    let bad = [
        "x,,42,1234567890,n,true,true,1500,u",
        "1609459200,x,42,1234567890,n,true,true,1500,u",
        "1609459200,,x,1234567890,n,true,true,1500,u",
        "1609459200,,42,x,n,true,true,1500,u",
        "1609459200,,42,1234567890,n,x,true,1500,u",
        "1609459200,,42,1234567890,n,true,x,1500,u",
        "1609459200,,42,1234567890,n,true,true,x,u",
        "1609459200,,42,,n,true,true,1500,u",
        ",,42,1234567890,n,true,true,1500,u",
        "1609459200,9223372036854775807,42,1234567890,n,true,true,1500,u",
    ];
    for line in bad {
        let row = fields(line);
        assert_eq!(row.len(), 9);
        assert_eq!(
            SuspensionRecord::try_from(row.clone()).unwrap_err(),
            Error::InvalidScreenNamesRecord(row),
            "{}",
            line
        );
    }
}

#[test]
fn a_suspension_record_is_written_back() {
    let record = SuspensionRecord::try_from(fields(SUSPENSION_LINE)).unwrap();
    assert_eq!(record.to_fields(), fields(SUSPENSION_LINE));
    let record = SuspensionRecord::try_from(fields(UNREVERSED_LINE)).unwrap();
    assert_eq!(record.to_fields(), fields(UNREVERSED_LINE));
}

#[test]
fn reading_writing_and_reading_a_suspension_row_changes_nothing() {
    for line in [SUSPENSION_LINE, UNREVERSED_LINE, "-5,-4,+3,-2,n,false,false,+1,u"] {
        let first = SuspensionRecord::try_from(fields(line)).unwrap();
        let second = SuspensionRecord::try_from(first.to_fields()).unwrap();
        assert_eq!(second.detected_at.seconds(), first.detected_at.seconds());
        assert_eq!(
            second.reversed_at.map(|instant| instant.seconds()),
            first.reversed_at.map(|instant| instant.seconds())
        );
        assert_eq!(second.user_id, first.user_id);
        assert_eq!(second.account_created_at.seconds(), first.account_created_at.seconds());
        assert_eq!(second.verified, first.verified);
        assert_eq!(second.protected, first.protected);
        assert_eq!(second.followers_count, first.followers_count);
        assert_eq!(second.to_fields(), first.to_fields());
    }
}

#[test]
fn the_widths_are_eight_and_nine() {
    assert_eq!(SCREEN_NAME_FIELDS, 8);
    assert_eq!(SUSPENSION_FIELDS, 9);
    assert_eq!(IDENTITY_FIELD, 3);
}

#[test]
fn a_row_with_empty_identity_is_an_unknown_account() {
    match read_suspension_row(fields("1609459200,,,,,,,,")).unwrap() {
        Row::Unknown(instant) => assert_eq!(instant.seconds(), 1_609_459_200),
        other => panic!("unexpected: {:?}", other),
    }
    match read_suspension_row(fields("1609459200,1609632000,42,")).unwrap() {
        Row::Unknown(instant) => assert_eq!(instant.seconds(), 1_609_459_200),
        other => panic!("unexpected: {:?}", other),
    }
}

#[test]
fn an_unknown_account_without_instant_is_rejected() {
    for line in ["x,,,,,,,,", ",,,,,,,,", "9223372036854775807,,,,,,,,"] {
        let row = fields(line);
        assert_eq!(
            read_suspension_row(row.clone()).unwrap_err(),
            Error::InvalidSuspensionsRecord(row),
            "{}",
            line
        );
    }
}

#[test]
fn a_row_that_stops_before_the_identity_is_rejected() {
    for line in ["", "1609459200", "1609459200,,42"] {
        let row = fields(line);
        assert_eq!(
            read_suspension_row(row.clone()).unwrap_err(),
            Error::InvalidSuspensionsRecord(row),
            "{}",
            line
        );
    }
    assert_eq!(read_suspension_row(vec![]).unwrap_err(), Error::InvalidSuspensionsRecord(vec![]));
}

#[test]
fn a_row_with_identity_is_read_as_a_suspension() {
    match read_suspension_row(fields(UNREVERSED_LINE)).unwrap() {
        Row::Known(Record::Suspension(record)) => {
            assert_eq!(record.user_id, 42);
            assert!(record.reversed_at.is_none());
        }
        other => panic!("unexpected: {:?}", other),
    }
    let short = fields("1609459200,,42,1234567890,somebody");
    assert_eq!(
        read_suspension_row(short.clone()).unwrap_err(),
        Error::InvalidSuspensionsRecord(short)
    );
    let bad = fields("1609459200,,42,1234567890,n,true,maybe,1500,u");
    assert_eq!(read_suspension_row(bad.clone()).unwrap_err(), Error::InvalidScreenNamesRecord(bad));
}

#[test]
fn rows_are_read_by_kind() {
    match read_row(ReportKind::ScreenNames, fields(SCREEN_NAME_LINE)).unwrap() {
        Row::Known(Record::ScreenName(record)) => assert_eq!(record.new_name, "newname"),
        other => panic!("unexpected: {:?}", other),
    }
    match read_screen_name_row(fields(SCREEN_NAME_LINE)).unwrap() {
        Row::Known(Record::ScreenName(record)) => assert_eq!(record.followers_count, 500),
        other => panic!("unexpected: {:?}", other),
    }
    match read_row(ReportKind::Suspensions, fields(SUSPENSION_LINE)).unwrap() {
        Row::Known(Record::Suspension(record)) => assert_eq!(record.screen_name, "somebody"),
        other => panic!("unexpected: {:?}", other),
    }
    assert!(matches!(
        read_row(ReportKind::Suspensions, fields("1609459200,,,,,,,,")),
        Ok(Row::Unknown(_))
    ));
    let row = fields(SUSPENSION_LINE);
    assert_eq!(
        read_row(ReportKind::ScreenNames, row.clone()).unwrap_err(),
        Error::InvalidScreenNamesRecord(row)
    );
    let row = fields(SCREEN_NAME_LINE);
    assert_eq!(
        read_row(ReportKind::Suspensions, row.clone()).unwrap_err(),
        Error::InvalidSuspensionsRecord(row)
    );
}

#[test]
fn a_record_gives_what_it_is_ranked_by() {
    let change = Record::ScreenName(ScreenNameRecord::try_from(fields(SCREEN_NAME_LINE)).unwrap());
    assert_eq!(change.followers_count(), 500);
    assert_eq!(change.user_id(), 42);
    assert_eq!(change.detected_at().seconds(), 1_609_459_200);
    assert_eq!(change.avatar_url(), "https://pbs.twimg.com/profile_images/42/abc_normal.jpg");
    let suspension =
        Record::Suspension(SuspensionRecord::try_from(fields(SUSPENSION_LINE)).unwrap());
    assert_eq!(suspension.followers_count(), 1500);
    assert_eq!(suspension.user_id(), 42);
    assert_eq!(suspension.detected_at().seconds(), 1_609_459_200);
    assert_eq!(suspension.avatar_url(), "https://pbs.twimg.com/profile_images/42/abc_normal.jpg");
    let unknown = Row::Unknown(Instant::from_seconds(5).unwrap());
    assert_eq!(unknown.detected_at().seconds(), 5);
    assert_eq!(Row::Known(change).detected_at().seconds(), 1_609_459_200);
}

#[test]
fn rows_are_read_in_order() {
    let rows = read_rows(
        ReportKind::Suspensions,
        vec![fields(SUSPENSION_LINE), fields("1609459200,,,,,,,,"), fields(UNREVERSED_LINE)],
    )
    .unwrap();
    assert_eq!(rows.len(), 3);
    assert!(matches!(rows[0], Row::Known(Record::Suspension(_))));
    assert!(matches!(rows[1], Row::Unknown(_)));
    assert!(matches!(rows[2], Row::Known(Record::Suspension(_))));
    assert!(read_rows(ReportKind::ScreenNames, vec![]).unwrap().is_empty());
    let rows = read_rows(ReportKind::ScreenNames, vec![fields(SCREEN_NAME_LINE)]).unwrap();
    assert_eq!(rows.len(), 1);
}

#[test]
fn reading_stops_at_the_first_row_that_is_rejected() {
    let first_bad = fields("1609459200,42,true,false,many,a,b,c");
    let second_bad = fields("1609459200,42");
    let error = read_rows(
        ReportKind::ScreenNames,
        vec![fields(SCREEN_NAME_LINE), first_bad.clone(), second_bad.clone(), fields(SCREEN_NAME_LINE)],
    )
    .unwrap_err();
    assert_eq!(error, Error::InvalidScreenNamesRecord(first_bad.clone()));
    let error =
        read_rows(ReportKind::Suspensions, vec![second_bad.clone(), first_bad]).unwrap_err();
    assert_eq!(error, Error::InvalidSuspensionsRecord(second_bad));
}

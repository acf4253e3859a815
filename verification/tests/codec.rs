use cfait::adapter::{
    format_iso_duration, insert_categories, read_categories, read_duration, read_links,
    read_status, split_tags,
};
use cfait::model::{Task, TaskStatus};
use cfait::text::can_fold;

fn sample() -> Task {
    Task {
        uid: "uid-1".to_string(),
        summary: "Buy milk".to_string(),
        description: String::new(),
        status: TaskStatus::NeedsAction,
        estimated_duration: None,
        due: None,
        dtstart: None,
        priority: 0,
        parent_uid: None,
        dependencies: Vec::new(),
        etag: String::new(),
        href: String::new(),
        calendar_href: "/cal/".to_string(),
        categories: Vec::new(),
        depth: 0,
        rrule: None,
    }
}

const DOCUMENT: &str = "BEGIN:VCALENDAR\r\nVERSION:2.0\r\nBEGIN:VTODO\r\nUID:abc\r\nSUMMARY:Test\r\nSTATUS:completed\r\nPRIORITY:5\r\nDUE:20240101\r\nDTSTART:20240102T030405Z\r\nRRULE:FREQ=DAILY\r\nDURATION:PT1H30M\r\nRELATED-TO:parent-1\r\nRELATED-TO;RELTYPE=DEPENDS-ON:dep-1\r\nRELATED-TO;RELTYPE=DEPENDS-ON:dep-1\r\nRELATED-TO;RELTYPE=DEPENDS-ON:dep-2\r\nEND:VTODO\r\nEND:VCALENDAR\r\n";

#[test]
fn document_names_the_task() {
    let text = sample().to_ics_at("20240101T000000Z").unwrap();
    assert!(text.contains("BEGIN:VTODO"));
    assert!(text.contains("UID:uid-1"));
    assert!(text.contains("SUMMARY:Buy milk"));
    assert!(text.contains("STATUS:NEEDS-ACTION"));
    assert!(text.contains("DTSTAMP:20240101T000000Z"));
    assert!(!text.contains("DESCRIPTION"));
    assert!(!text.contains("PRIORITY"));
    assert!(!text.contains("CATEGORIES"));
}

#[test]
fn document_carries_the_current_time() {
    let text = sample().to_ics().unwrap();
    assert!(text.contains("DTSTAMP:2"));
    assert!(text.contains("UID:uid-1"));
}

#[test]
fn document_writes_dates_and_duration() {
    let mut t = sample();
    t.dtstart = Some(1704067200);
    t.due = Some(1704164645);
    t.estimated_duration = Some(90);
    t.priority = 3;
    t.rrule = Some("FREQ=DAILY".to_string());
    t.description = "Whole milk".to_string();
    t.status = TaskStatus::InProcess;
    let text = t.to_ics_at("20240101T000000Z").unwrap();
    assert!(text.contains("DTSTART:20240101T000000Z"));
    assert!(text.contains("DUE:20240102T030405Z"));
    assert!(text.contains("X-ESTIMATED-DURATION:PT90M"));
    assert!(text.contains("PRIORITY:3"));
    assert!(text.contains("RRULE:FREQ=DAILY"));
    assert!(text.contains("DESCRIPTION:Whole milk"));
    assert!(text.contains("STATUS:IN-PROCESS"));
    assert!(!text.contains("\r\nDURATION:"));
}

#[test]
fn document_without_due_date_writes_plain_duration() {
    let mut t = sample();
    t.estimated_duration = Some(120);
    let text = t.to_ics_at("20240101T000000Z").unwrap();
    assert!(text.contains("\r\nDURATION:PT2H"));
    assert!(!text.contains("X-ESTIMATED-DURATION"));
}

#[test]
fn document_writes_links() {
    let mut t = sample();
    t.parent_uid = Some("parent-1".to_string());
    t.dependencies = vec!["dep-1".to_string(), "dep-2".to_string()];
    let text = t.to_ics_at("20240101T000000Z").unwrap();
    assert!(text.contains("RELATED-TO:parent-1"));
    assert!(text.contains("RELATED-TO;RELTYPE=DEPENDS-ON:dep-1"));
    assert!(text.contains("RELATED-TO;RELTYPE=DEPENDS-ON:dep-2"));
}

#[test]
fn document_caps_the_priority_at_ten() {
    let mut t = sample();
    t.priority = 200;
    let text = t.to_ics_at("20240101T000000Z").unwrap();
    assert!(text.contains("PRIORITY:10\r\n"));
}

#[test]
fn categories_go_before_the_end_of_the_entry() {
    let mut t = sample();
    t.categories = vec!["work".to_string(), "a,b".to_string()];
    let text = t.to_ics_at("20240101T000000Z").unwrap();
    assert!(text.contains("CATEGORIES:work,a\\,b\r\nEND:VTODO"));
}

#[test]
fn insert_categories_leaves_other_documents_alone() {
    let tags = vec!["x".to_string()];
    assert_eq!(insert_categories("no entry here", &tags), "no entry here");
    assert_eq!(insert_categories("END:VTODO", &Vec::new()), "END:VTODO");
    assert_eq!(
        insert_categories("A END:VTODO B END:VTODO C", &tags),
        "A END:VTODO B CATEGORIES:x\r\nEND:VTODO C"
    );
}

#[test]
fn reads_a_document() {
    let t = Task::from_ics(DOCUMENT, "e1".to_string(), "/cal/abc.ics".to_string(), "/cal/".to_string())
        .unwrap();
    assert_eq!(t.uid, "abc");
    assert_eq!(t.summary, "Test");
    assert_eq!(t.description, "");
    assert_eq!(t.status, TaskStatus::Completed);
    assert_eq!(t.priority, 5);
    assert_eq!(t.due, Some(1704153599));
    assert_eq!(t.dtstart, Some(1704164645));
    assert_eq!(t.rrule, Some("FREQ=DAILY".to_string()));
    assert_eq!(t.estimated_duration, Some(90));
    assert_eq!(t.parent_uid, Some("parent-1".to_string()));
    assert_eq!(t.dependencies, vec!["dep-1".to_string(), "dep-2".to_string()]);
    assert_eq!(t.etag, "e1");
    assert_eq!(t.href, "/cal/abc.ics");
    assert_eq!(t.calendar_href, "/cal/");
    assert_eq!(t.depth, 0);
}

#[test]
fn reads_defaults_where_the_document_is_silent() {
    let raw = "BEGIN:VCALENDAR\r\nBEGIN:VTODO\r\nEND:VTODO\r\nEND:VCALENDAR\r\n";
    let t = Task::from_ics(raw, String::new(), String::new(), "c".to_string()).unwrap();
    assert_eq!(t.summary, "No Title");
    assert_eq!(t.uid, "");
    assert_eq!(t.status, TaskStatus::NeedsAction);
    assert_eq!(t.priority, 0);
    assert_eq!(t.due, None);
    assert_eq!(t.dtstart, None);
    assert_eq!(t.estimated_duration, None);
    assert_eq!(t.parent_uid, None);
    assert!(t.dependencies.is_empty());
    assert!(t.categories.is_empty());
}

#[test]
fn date_without_time_is_start_of_day_for_the_start() {
    let raw = "BEGIN:VCALENDAR\r\nBEGIN:VTODO\r\nUID:d\r\nDTSTART:20240101\r\nDUE:20240102T030405\r\nEND:VTODO\r\nEND:VCALENDAR\r\n";
    let t = Task::from_ics(raw, String::new(), String::new(), "c".to_string()).unwrap();
    assert_eq!(t.dtstart, Some(1704067200));
    assert_eq!(t.due, Some(1704164645));
}

#[test]
fn unreadable_dates_are_left_out() {
    let raw = "BEGIN:VCALENDAR\r\nBEGIN:VTODO\r\nUID:d\r\nDTSTART:tomorrow\r\nDUE:2024\r\nEND:VTODO\r\nEND:VCALENDAR\r\n";
    let t = Task::from_ics(raw, String::new(), String::new(), "c".to_string()).unwrap();
    assert_eq!(t.dtstart, None);
    assert_eq!(t.due, None);
}

#[test]
fn categories_come_out_sorted_and_once() {
    let raw = "BEGIN:VCALENDAR\r\nBEGIN:VTODO\r\nUID:c\r\nCATEGORIES:work, home ,,work\r\nEND:VTODO\r\nEND:VCALENDAR\r\n";
    let t = Task::from_ics(raw, String::new(), String::new(), "c".to_string()).unwrap();
    assert_eq!(t.categories, vec!["home".to_string(), "work".to_string()]);
}

#[test]
fn document_without_entry_is_refused() {
    let raw = "BEGIN:VCALENDAR\r\nVERSION:2.0\r\nBEGIN:VEVENT\r\nUID:x\r\nEND:VEVENT\r\nEND:VCALENDAR\r\n";
    let r = Task::from_ics(raw, String::new(), String::new(), "c".to_string());
    assert_eq!(r.err(), Some("No VTODO".to_string()));
}

#[test]
fn malformed_document_is_refused() {
    let raw = "BEGIN:VCALENDAR\r\nBEGIN:VTODO\r\nUID:x\r\nEND:VEVENT\r\n";
    let r = Task::from_ics(raw, String::new(), String::new(), "c".to_string());
    let e = r.err().unwrap();
    assert!(e.starts_with("Parse: "));
    assert!(e.len() > "Parse: ".len());
}

#[test]
fn round_trip_keeps_the_task() {
    let mut t = sample();
    t.status = TaskStatus::Cancelled;
    t.due = Some(1704164645);
    t.dtstart = Some(1704067200);
    t.categories = vec!["work".to_string(), "home".to_string()];
    t.rrule = Some("FREQ=WEEKLY;BYDAY=MO".to_string());
    t.parent_uid = Some("parent-1".to_string());
    t.dependencies = vec!["dep-2".to_string(), "dep-1".to_string()];
    t.estimated_duration = Some(2880);
    t.priority = 7;
    let text = t.to_ics_at("20240101T000000Z").unwrap();
    let back = Task::from_ics(&text, "e".to_string(), "h".to_string(), "/cal/".to_string()).unwrap();
    assert_eq!(back.uid, t.uid);
    assert_eq!(back.summary, t.summary);
    assert_eq!(back.status, t.status);
    assert_eq!(back.due, t.due);
    assert_eq!(back.dtstart, t.dtstart);
    assert_eq!(back.categories, vec!["home".to_string(), "work".to_string()]);
    assert_eq!(back.rrule, t.rrule);
    assert_eq!(back.parent_uid, t.parent_uid);
    assert_eq!(back.dependencies, t.dependencies);
    assert_eq!(back.estimated_duration, t.estimated_duration);
    assert_eq!(back.priority, t.priority);
}

#[test]
fn status_keywords() {
    assert_eq!(read_status(&Some("COMPLETED".to_string())), TaskStatus::Completed);
    assert_eq!(read_status(&Some(" in-process ".to_string())), TaskStatus::InProcess);
    assert_eq!(read_status(&Some("Cancelled".to_string())), TaskStatus::Cancelled);
    assert_eq!(read_status(&Some("NEEDS-ACTION".to_string())), TaskStatus::NeedsAction);
    assert_eq!(read_status(&Some("whatever".to_string())), TaskStatus::NeedsAction);
    assert_eq!(read_status(&None), TaskStatus::NeedsAction);
}

#[test]
fn durations_are_written_in_the_largest_whole_unit() {
    assert_eq!(format_iso_duration(1440), "P1D");
    assert_eq!(format_iso_duration(4320), "P3D");
    assert_eq!(format_iso_duration(60), "PT1H");
    assert_eq!(format_iso_duration(150), "PT150M");
    assert_eq!(format_iso_duration(0), "P0D");
}

fn chars(s: &str) -> Vec<char> {
    s.chars().collect()
}

#[test]
fn durations_are_read_by_designator() {
    assert_eq!(read_duration(&chars("P1D")), Some(1440));
    assert_eq!(read_duration(&chars("PT2H")), Some(120));
    assert_eq!(read_duration(&chars("PT45M")), Some(45));
    assert_eq!(read_duration(&chars("P1W")), Some(10080));
    assert_eq!(read_duration(&chars("P1DT2H30M")), Some(1590));
    assert_eq!(read_duration(&chars("P2M")), None);
    assert_eq!(read_duration(&chars("P2H")), None);
    assert_eq!(read_duration(&chars("PT0M")), None);
    assert_eq!(read_duration(&chars("")), None);
    assert_eq!(read_duration(&chars("PT30S")), None);
    assert_eq!(read_duration(&chars("P99999999999D")), None);
    assert_eq!(read_duration(&chars("P4000000000D")), Some(u32::MAX));
}

#[test]
fn links_are_read_from_the_lines() {
    let raw = "RELATED-TO:first\r\nRELATED-TO;RELTYPE=PARENT:second\r\nRELATED-TO;reltype=depends-on: d1 \r\nRELATED-TO;RELTYPE=CHILD:c1\r\nRELATED-TO;RELTYPE=DEPENDS-ON:lo\r\n ng\r\nSUMMARY:RELATED-TO:x\r\nRELATED-TO\r\n";
    let (parent, dependencies) = read_links(raw);
    assert_eq!(parent, Some("second".to_string()));
    assert_eq!(dependencies, vec!["d1".to_string(), "long".to_string()]);
}

#[test]
fn tag_with_a_comma_survives_writing_and_reading() {
    let mut t = sample();
    t.categories = vec![
        "work".to_string(),
        "a,b".to_string(),
        ",lead".to_string(),
        "back\\slash".to_string(),
        "x\\,y".to_string(),
    ];
    let text = t.to_ics_at("20240101T000000Z").unwrap();
    assert!(text.contains("CATEGORIES:work,a\\,b,\\,lead,back\\slash,x\\\\,y\r\nEND:VTODO"));
    let back = Task::from_ics(&text, "e".to_string(), "h".to_string(), "/cal/".to_string()).unwrap();
    let mut expected = t.categories.clone();
    expected.sort();
    assert_eq!(back.categories, expected);
}

#[test]
fn tags_are_split_at_commas_that_no_backslash_precedes() {
    let pieces = |s: &str| -> Vec<String> {
        split_tags(&chars(s)).into_iter().map(|p| p.into_iter().collect()).collect()
    };
    assert_eq!(pieces(""), vec![""]);
    assert_eq!(pieces("a"), vec!["a"]);
    assert_eq!(pieces("a,b"), vec!["a", "b"]);
    assert_eq!(pieces("a\\,b"), vec!["a,b"]);
    assert_eq!(pieces(","), vec!["", ""]);
    assert_eq!(pieces("\\,"), vec![","]);
    assert_eq!(pieces("a,,b,"), vec!["a", "", "b", ""]);
    assert_eq!(pieces("a\\b,c\\"), vec!["a\\b", "c\\"]);
    assert_eq!(pieces("a\\\\,b"), vec!["a\\,b"]);
    assert_eq!(pieces("a\\,\\,b,c"), vec!["a,,b", "c"]);
}

#[test]
fn tags_are_read_from_every_category_line() {
    let raw = "BEGIN:VTODO\r\nCATEGORIES:b, a\r\nCATEGORIES;LANGUAGE=en:c\\,d,a\r\nX-CATEGORIES:no\r\nCATEGORIESX:no\r\nCATEGORIES\r\nSUMMARY:CATEGORIES:no\r\nCATEGORIES:fol\r\n ded\r\nEND:VTODO\r\n";
    assert_eq!(read_categories(raw), vec!["a", "b", "c,d", "folded"]);
    assert!(read_categories("").is_empty());
    assert!(read_categories("CATEGORIES: , ,").is_empty());
}

const UNWRITABLE: &str = "Cannot write the task: a text holds too much white space";

#[test]
fn task_whose_line_cannot_be_folded_is_refused() {
    let mut t = sample();
    t.summary = "\u{a0}".repeat(200);
    assert!(!t.is_writable("20240101T000000Z"));
    assert_eq!(t.to_ics_at("20240101T000000Z"), Err(UNWRITABLE.to_string()));
    let mut t = sample();
    t.description = format!("{}{}", "é".repeat(100), " ".repeat(200));
    assert_eq!(t.to_ics_at("20240101T000000Z"), Err(UNWRITABLE.to_string()));
    let mut t = sample();
    t.dependencies = vec!["fine".to_string(), "é \t \t \t \t \t \t \t \t ".to_string()];
    assert_eq!(t.to_ics_at("20240101T000000Z"), Err(UNWRITABLE.to_string()));
}

#[test]
fn long_texts_are_folded_and_read_back() {
    let stamp = "20240101T000000Z";
    let prose = "Préparer la réunion d'équipe à Zürich : réserver la salle, commander le café, envoyer l'ordre du jour à tous les participants et vérifier le vidéoprojecteur avant midi.";
    let spaced = format!("{}{}", "x".repeat(70), " ".repeat(200));
    let russian = "Купить молоко и хлеб, а ещё не забыть про сыр и масло, и чай, и мёд, и соль, и перец, и лук, и рис, и всё это до пяти часов вечера".to_string();
    let dense = format!("{}{}{}", "é".repeat(60), " é".repeat(15), "é".repeat(200));
    let cjk = "買い物リスト　牛乳とパンとチーズとバターとお茶と蜂蜜と塩と胡椒と玉ねぎとお米を午後五時までに買うこと".to_string();
    for text in [prose.to_string(), spaced, russian, dense, cjk] {
        let mut t = sample();
        t.summary = text.clone();
        t.description = text.clone();
        assert!(t.is_writable(stamp), "{}", text);
        let document = t.to_ics_at(stamp).unwrap();
        for line in document.split("\r\n") {
            assert!(line.len() <= 80, "{}", line);
        }
        let back = Task::from_ics(&document, String::new(), String::new(), "c".to_string()).unwrap();
        assert_eq!(back.summary.trim_end(), text.trim_end());
    }
}

#[test]
fn clusters_of_white_space_are_counted() {
    assert!(can_fold(""));
    assert!(can_fold(&" ".repeat(1000)));
    assert!(can_fold(&"é".repeat(1000)));
    assert!(can_fold(&format!("é{}", " ".repeat(15))));
    assert!(!can_fold(&format!("é{}", " ".repeat(16))));
    assert!(can_fold(&format!("é{}", " abc".repeat(15))));
    assert!(!can_fold(&format!("é{}", " abc".repeat(16))));
    assert!(can_fold(&format!("é{}", " abcd".repeat(100))));
    assert!(can_fold(&format!("{}é{}", " ab".repeat(15), "abcd ".repeat(15))));
    assert!(can_fold(&format!("{}é{}", " ab".repeat(8), "abc ".repeat(8))));
    assert!(!can_fold(&format!("{}é {}", " ab".repeat(8), "ab ".repeat(8))));
    assert!(!can_fold(&format!("é{}", "\u{3000}x".repeat(16))));
}

#[test]
fn every_text_that_passes_the_test_is_written() {
    let alphabet = [' ', ' ', '\u{a0}', '\t', 'a', 'b', 'é', 'ß', '老', '😀', ',', ';', '\\'];
    let mut seed: u64 = 0x2545F4914F6CDD1D;
    let mut next = move |bound: usize| -> usize {
        seed ^= seed << 13;
        seed ^= seed >> 7;
        seed ^= seed << 17;
        (seed % bound as u64) as usize
    };
    let mut written = 0;
    let mut refused = 0;
    for round in 0..4000 {
        let length = 60 + next(300);
        // The share of white space differs from text to text.
        let spaces = 1 + next(4);
        let mut text = String::new();
        for _ in 0..length {
            let c = if next(6) < spaces { alphabet[next(4)] } else { alphabet[4 + next(9)] };
            text.push(c);
        }
        let mut t = sample();
        if round % 2 == 0 {
            t.summary = text.clone();
        } else {
            t.description = text.clone();
        }
        match t.to_ics_at("20240101T000000Z") {
            Ok(document) => {
                assert!(can_fold(&text));
                assert!(document.ends_with("END:VCALENDAR\r\n"));
                written += 1;
            }
            Err(_) => {
                assert!(!can_fold(&text));
                refused += 1;
            }
        }
    }
    assert!(written > 500);
    assert!(refused > 500);
}

#[test]
fn largest_clusters_that_pass_are_written() {
    for filler in ['é', '老', '😀'] {
        for gap in 1..=4usize {
            for shift in 0..12usize {
                let mut text = "x".repeat(shift);
                text.push_str(&filler.to_string().repeat(40));
                for _ in 0..12 {
                    for _ in 0..15 {
                        text.push(' ');
                        text.push_str(&filler.to_string().repeat(gap - 1));
                    }
                    text.push_str(&filler.to_string().repeat(5));
                }
                assert!(can_fold(&text));
                let mut t = sample();
                t.summary = text.clone();
                let document = t.to_ics_at("20240101T000000Z").unwrap();
                let back =
                    Task::from_ics(&document, String::new(), String::new(), "c".to_string()).unwrap();
                assert_eq!(back.summary, text);
            }
        }
    }
}

#[test]
fn tags_are_read_from_the_first_entry_alone() {
    let raw = "BEGIN:VCALENDAR\r\nCATEGORIES:calendar\r\nBEGIN:VEVENT\r\nCATEGORIES:event\r\nEND:VEVENT\r\nBEGIN:VTODO\r\nUID:one\r\nCATEGORIES:first\r\nBEGIN:VALARM\r\nCATEGORIES:alarm\r\nEND:VALARM\r\nCATEGORIES:tab\r\n\tbed,spa\r\n ced\r\nEND:VTODO\r\nBEGIN:VTODO\r\nUID:two\r\nCATEGORIES:second\r\nEND:VTODO\r\nEND:VCALENDAR\r\n";
    assert_eq!(read_categories(raw), vec!["first", "spaced", "tabbed"]);
    let t = Task::from_ics(raw, String::new(), String::new(), "c".to_string()).unwrap();
    assert_eq!(t.uid, "one");
    assert_eq!(t.categories, vec!["first", "spaced", "tabbed"]);
    assert!(read_categories("CATEGORIES:outside\r\n").is_empty());
    assert!(read_categories("BEGIN:VEVENT\r\nCATEGORIES:event\r\nEND:VEVENT\r\n").is_empty());
}

#[test]
fn document_that_opens_too_many_components_is_refused() {
    let deep = format!("{}{}", "BEGIN:X\r\n".repeat(5000), "END:X\r\n".repeat(5000));
    let r = Task::from_ics(&deep, String::new(), String::new(), "c".to_string());
    assert_eq!(r.err(), Some("Parse: too many components".to_string()));
    let mixed = format!("{}{}", "begin:X\r\n".repeat(65), "END:X\r\n".repeat(65));
    let r = Task::from_ics(&mixed, String::new(), String::new(), "c".to_string());
    assert_eq!(r.err(), Some("Parse: too many components".to_string()));
    let fine = format!(
        "BEGIN:VCALENDAR\r\n{}BEGIN:VTODO\r\nUID:deep\r\nEND:VTODO\r\nEND:VCALENDAR\r\n",
        "BEGIN:VEVENT\r\nUID:e\r\nEND:VEVENT\r\n".repeat(62)
    );
    let t = Task::from_ics(&fine, String::new(), String::new(), "c".to_string()).unwrap();
    assert_eq!(t.uid, "deep");
}

#[test]
fn component_markers_are_read_in_whatever_case() {
    let raw = "begin:VCALENDAR\r\nBegin:VTODO\r\nUID:lower\r\nCATEGORIES:a\r\nbegin:VALARM\r\nCATEGORIES:no\r\nend:VALARM\r\nCATEGORIES:b\r\nend:VTODO\r\nCATEGORIES:after\r\nEND:VCALENDAR\r\n";
    let t = Task::from_ics(raw, String::new(), String::new(), "c".to_string()).unwrap();
    assert_eq!(t.uid, "lower");
    assert_eq!(t.categories, vec!["a", "b"]);
}

use asenix::api::{HealthResponse, ProjectFileInfo, ProjectInfo, ReviewItem};
use asenix::commands::{
    agent_dir_number, agent_log_positions, count_names_ending, is_json_list_text, is_log_file_name, log_line_prefix,
    log_table_rows, newest_first, pack_row, parse_pid, parse_review_choice, project_detail_rows,
    project_file_row_texts, project_list_row, requirements_from_text, reset_plan, reset_summary, review_item_texts,
    review_reason, review_summary, status_rows, stop_report, suggests_login_again, upload_file_name, ReviewChoice,
};
use asenix::packs::PackInfo;

fn strings(v: &[&str]) -> Vec<String> {
    v.iter().map(|s| s.to_string()).collect()
}

#[test]
fn review_answers() {
    assert_eq!(parse_review_choice(" a\n"), Some(ReviewChoice::Approve));
    assert_eq!(parse_review_choice("approve"), Some(ReviewChoice::Approve));
    assert_eq!(parse_review_choice("r"), Some(ReviewChoice::Reject));
    assert_eq!(parse_review_choice("\n"), Some(ReviewChoice::Skip));
    assert_eq!(parse_review_choice("skip"), Some(ReviewChoice::Skip));
    assert_eq!(parse_review_choice("x"), None);
    assert_eq!(review_reason("  \n"), None);
    assert_eq!(review_reason(" duplicate \n"), Some("duplicate".to_string()));
    assert_eq!(review_summary(5, 2, 1), "  Reviewed 5 item(s): 2 approved, 1 rejected, 2 skipped");
    assert!(suggests_login_again("unauthorized — token may have expired"));
    assert!(!suggests_login_again("HTTP 500"));
}

#[test]
fn log_selection_and_order() {
    assert!(is_log_file_name("ml_agent_1_20250101.log"));
    assert!(!is_log_file_name("notes.txt"));
    let names = strings(&["p_agent_1_a.log", "p_agent_12_b.log", "q_agent_1_c.log"]);
    assert_eq!(agent_log_positions(&names, 1), vec![0, 2]);
    assert_eq!(agent_log_positions(&names, 12), vec![1]);
    assert!(agent_log_positions(&names, 3).is_empty());
    assert_eq!(newest_first(&[Some(5), None, Some(9), Some(5)]), vec![2, 0, 3, 1]);
    assert!(newest_first(&[]).is_empty());
    let rows = log_table_rows(&strings(&["a.log", "b.log"]));
    assert_eq!(rows, vec![strings(&["1", "a.log"]), strings(&["2", "b.log"])]);
    assert_eq!(log_line_prefix(Some("x.log"), 0), "x.log");
    assert_eq!(log_line_prefix(None, 2), "agent_3");
}

#[test]
fn reset_lines() {
    assert_eq!(count_names_ending(&strings(&["a.toml", "b.log", "c.toml"]), ".toml"), 2);
    assert!(reset_plan(0, "/c", 0, "/l", false, "/a").is_empty());
    assert_eq!(
        reset_plan(2, "/c", 1, "/l", true, "/a"),
        strings(&["  - 2 credential file(s) in /c", "  - 1 log file(s) in /l", "  - auth token in /a"])
    );
    assert_eq!(reset_plan(0, "/c", 3, "/l", false, "/a"), strings(&["  - 3 log file(s) in /l"]));
    assert_eq!(reset_summary(2, 3, true), "Reset complete: 2 credential(s), 3 log(s), auth token deleted");
    assert_eq!(reset_summary(0, 0, false), "Reset complete: 0 credential(s), 0 log(s) deleted");
}

#[test]
fn stopping_agents() {
    assert_eq!(agent_dir_number("3", None), Some(3));
    assert_eq!(agent_dir_number("3", Some(4)), None);
    assert_eq!(agent_dir_number("+4", Some(4)), Some(4));
    assert_eq!(agent_dir_number("logs", None), None);
    assert_eq!(parse_pid(" 1234\n"), Some(1234));
    assert_eq!(parse_pid("0"), None);
    assert_eq!(parse_pid("4294967296"), None);
    assert_eq!(parse_pid("-5"), None);
    assert_eq!(stop_report(0, 2), Some("2 agent(s) were already stopped".to_string()));
    assert_eq!(stop_report(1, 2), None);
    assert_eq!(stop_report(0, 0), None);
}

#[test]
fn status_and_project_rows() {
    let h = HealthResponse {
        status: "healthy".to_string(),
        database: "ok".to_string(),
        graph_nodes: 3,
        graph_edges: 2,
        embedding_queue_depth: 0,
    };
    let rows = status_rows(&h);
    assert_eq!(rows[0], strings(&["Status", "healthy"]));
    assert_eq!(rows[2], strings(&["Graph nodes", "3"]));
    assert_eq!(rows[4], strings(&["Embed queue", "0"]));
    let p = ProjectInfo {
        project_id: "pid".to_string(),
        name: "Name".to_string(),
        slug: "slug".to_string(),
        description: None,
        created_at: "2025-05-06T07:08:09Z".to_string(),
    };
    assert_eq!(project_list_row(&p), strings(&["slug", "Name", "", "2025-05-06"]));
    let d = project_detail_rows(&p);
    assert_eq!(d[3], strings(&["Description", ""]));
    assert_eq!(d[4], strings(&["Created", "2025-05-06T07:08:09Z"]));
    let f = ProjectFileInfo {
        filename: "train.py".to_string(),
        size_bytes: 10,
        content_type: None,
        uploaded_at: "2025-05-06T07:08:09Z".to_string(),
    };
    assert_eq!(project_file_row_texts(&f), strings(&["train.py", "—", "2025-05-06"]));
    let pk = PackInfo {
        name: "vision".to_string(),
        description: "d".to_string(),
        file_count: 4,
        has_bounty: true,
        has_requirements: false,
    };
    assert_eq!(pack_row(&pk), strings(&["vision", "d", "4", "✓", "—"]));
    let item = ReviewItem {
        atom_id: "atom-0123456789xyz".to_string(),
        atom_type: "finding".to_string(),
        domain: "ml".to_string(),
        statement: "s".to_string(),
        author_agent_id: "agent".to_string(),
        created_at: "2025-05-06T07:08:09.123Z".to_string(),
    };
    assert_eq!(review_item_texts(&item), strings(&["atom-012345...", "s", "agent", "2025-05-06T07:08:09"]));
    assert_eq!(upload_file_name(Some("x"), Some("y")), "x");
    assert_eq!(upload_file_name(None, Some("y")), "y");
    assert_eq!(upload_file_name(None, None), "file");
}

#[test]
fn requirements_files() {
    assert_eq!(
        requirements_from_text("numpy\n  # comment\n\ntorch==2.0 \r\n"),
        strings(&["numpy", "torch==2.0"])
    );
    assert!(requirements_from_text("").is_empty());
    assert!(is_json_list_text("  [\"numpy\"]"));
    assert!(!is_json_list_text("numpy"));
    assert!(!is_json_list_text("   "));
}

use conflic::fix::{FileFormat, FixOperation, FixPlan, FixProposal};
use conflic::lsp::code_actions::proposals_to_code_actions;
use conflic::lsp::text_document::{Position, Range};
use conflic::model::SemanticConcept;

fn proposal(file: &str, line: usize, current: &str, proposed: &str) -> FixProposal {
    FixProposal {
        file: file.to_string(),
        concept: SemanticConcept::node_version(),
        current_raw: current.to_string(),
        proposed_raw: proposed.to_string(),
        key_path: String::new(),
        line,
        authority_winner: "Dockerfile (enforced)".to_string(),
        winner_file: "Dockerfile".to_string(),
        format: FileFormat::PlainText,
        operation: FixOperation::ReplaceWholeFileValue { value: proposed.to_string() },
    }
}

fn lines(start: u32, end: u32) -> Range {
    Range {
        start: Position { line: start, character: 0 },
        end: Position { line: end, character: 0 },
    }
}

#[test]
fn code_actions_cover_proposals_of_the_file_in_range() {
    let plan = FixPlan {
        proposals: vec![
            proposal("/w/.nvmrc", 1, "18", "20"),
            proposal("/w/other/.nvmrc", 1, "16", "20"),
            proposal("/w/.nvmrc", 5, "19", "20"),
        ],
        unfixable: vec![],
    };
    let actions = proposals_to_code_actions(&plan, "/w/.nvmrc", "v18\n", &lines(0, 2));
    assert_eq!(actions.len(), 1);
    assert_eq!(actions[0].title, "Fix Node.js Version: change '18' to '20'");
    assert_eq!(actions[0].edit_range.start, Position { line: 0, character: 0 });
    assert_eq!(actions[0].edit_range.end, Position { line: 0, character: u32::MAX });
    assert_eq!(actions[0].new_text, "v20");
}

#[test]
fn code_actions_keep_plan_order() {
    let plan = FixPlan {
        proposals: vec![proposal("/w/Dockerfile", 5, "19", "20"), proposal("/w/Dockerfile", 2, "18", "20")],
        unfixable: vec![],
    };
    let document = "FROM base\nFROM node:18 AS build\n\n\nFROM node:19-alpine\n";
    let actions = proposals_to_code_actions(&plan, "/w/Dockerfile", document, &lines(0, 10));
    assert_eq!(actions.len(), 2);
    assert_eq!(actions[0].edit_range.start.line, 4);
    assert_eq!(actions[0].new_text, "FROM node:20-alpine");
    assert_eq!(actions[1].edit_range.start.line, 1);
    assert_eq!(actions[1].title, "Fix Node.js Version: change '18' to '20'");
    assert_eq!(actions[1].new_text, "FROM node:20 AS build");
}

#[test]
fn code_actions_line_zero_maps_to_first_line() {
    let plan = FixPlan { proposals: vec![proposal("/w/.nvmrc", 0, "18", "20")], unfixable: vec![] };
    let actions = proposals_to_code_actions(&plan, "/w/.nvmrc", "18\n", &lines(0, 0));
    assert_eq!(actions.len(), 1);
    assert_eq!(actions[0].edit_range.start.line, 0);
    assert_eq!(actions[0].new_text, "20");
    assert!(proposals_to_code_actions(&plan, "/w/.nvmrc", "18\n", &lines(1, 3)).is_empty());
}

#[test]
fn code_actions_need_the_current_value_on_the_line() {
    let plan = FixPlan { proposals: vec![proposal("/w/.nvmrc", 1, "18", "20"), proposal("/w/.nvmrc", 3, "18", "20")], unfixable: vec![] };
    // The line now holds another value, and line 3 does not exist.
    assert!(proposals_to_code_actions(&plan, "/w/.nvmrc", "22\n", &lines(0, 5)).is_empty());
}

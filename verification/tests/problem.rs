use rngo::sim::problem::{failure_context, render_path, PathPart, Problem, ProblemIssue};

fn field(name: &str) -> PathPart {
    PathPart::Field(name.to_string())
}

#[test]
fn validation_problem_renders_title_and_issue() {
    let problem = Problem {
        title: "Validation error".to_string(),
        issues: vec![ProblemIssue {
            message: "required".to_string(),
            path: Some(vec![field("entities"), field("user"), field("format")]),
        }],
    };
    assert_eq!(problem.to_string(), "Validation error\n  entities.user.format: required");
}

#[test]
fn problem_without_issues_renders_title_only() {
    let problem = Problem { title: "Not found".to_string(), issues: vec![] };
    assert_eq!(problem.to_string(), "Not found");
}

#[test]
fn problem_renders_one_line_per_issue() {
    let problem = Problem {
        title: "Validation error".to_string(),
        issues: vec![
            ProblemIssue { message: "required".to_string(), path: Some(vec![field("seed")]) },
            ProblemIssue { message: "too many entities".to_string(), path: None },
            ProblemIssue {
                message: "unknown type".to_string(),
                path: Some(vec![field("entities"), PathPart::Index(2), field("type")]),
            },
        ],
    };
    assert_eq!(
        problem.to_string(),
        "Validation error\n  seed: required\n  too many entities\n  entities[2].type: unknown type"
    );
}

#[test]
fn issue_without_path_is_its_message() {
    let issue = ProblemIssue { message: "boom".to_string(), path: None };
    assert_eq!(issue.to_string(), "boom");
}

#[test]
fn issue_with_empty_path_keeps_the_colon() {
    let issue = ProblemIssue { message: "boom".to_string(), path: Some(vec![]) };
    assert_eq!(issue.to_string(), ": boom");
}

#[test]
fn path_joins_fields_with_dots_and_indices_in_brackets() {
    let path = vec![field("a"), field("b"), PathPart::Index(3), field("c"), PathPart::Index(0)];
    assert_eq!(render_path(&path), "a.b[3].c[0]");
}

#[test]
fn path_that_starts_with_an_index_puts_a_dot_before_the_field() {
    let path = vec![PathPart::Index(0), field("name")];
    assert_eq!(render_path(&path), "[0].name");
}

#[test]
fn path_renders_negative_and_extreme_indices() {
    assert_eq!(render_path(&vec![PathPart::Index(-7)]), "[-7]");
    assert_eq!(render_path(&vec![PathPart::Index(i64::MIN)]), "[-9223372036854775808]");
    assert_eq!(render_path(&vec![PathPart::Index(i64::MAX)]), "[9223372036854775807]");
}

#[test]
fn field_after_an_empty_first_field_keeps_its_dot() {
    let path = vec![field(""), field("x")];
    assert_eq!(render_path(&path), ".x");
    let issue = ProblemIssue { message: "m".to_string(), path: Some(vec![field(""), field("a")]) };
    assert_eq!(issue.to_string(), ".a: m");
}

#[test]
fn only_the_first_part_of_a_path_has_no_dot() {
    assert_eq!(render_path(&vec![field("a")]), "a");
    assert_eq!(render_path(&vec![field("")]), "");
    assert_eq!(render_path(&vec![field(""), field(""), field("b")]), "..b");
    assert_eq!(render_path(&vec![PathPart::Index(1), PathPart::Index(2), field("c")]), "[1][2].c");
}

#[test]
fn failure_context_names_validation_errors() {
    assert_eq!(failure_context(422), "Validation error");
    assert_eq!(failure_context(500), "API error");
    assert_eq!(failure_context(404), "API error");
}

/// What the driver does with the body of a refused request: decode it.
fn decode_problem(body: &str) -> Problem {
    let value: serde_json::Value = serde_json::from_str(body).expect("a JSON body");
    let issues = value["issues"].as_array().expect("issues");
    Problem {
        title: value["title"].as_str().expect("a title").to_string(),
        issues: issues
            .iter()
            .map(|issue| ProblemIssue {
                message: issue["message"].as_str().expect("a message").to_string(),
                path: issue.get("path").and_then(|path| path.as_array()).map(|parts| {
                    parts
                        .iter()
                        .map(|part| match part.as_i64() {
                            Some(index) => PathPart::Index(index),
                            None => PathPart::Field(part.as_str().expect("a name").to_string()),
                        })
                        .collect()
                }),
            })
            .collect(),
    }
}

#[test]
fn refused_response_body_renders_for_the_user() {
    let body = "{\"title\":\"Validation error\",\"issues\":[{\"path\":[\"entities\",\"user\",\"format\"],\"message\":\"required\"}]}";
    assert_eq!(decode_problem(body).to_string(), "Validation error\n  entities.user.format: required");
    let body = "{\"title\":\"Validation error\",\"issues\":[{\"path\":[\"entities\",0,\"name\"],\"message\":\"too short\"},{\"message\":\"no seed\"}]}";
    assert_eq!(
        decode_problem(body).to_string(),
        "Validation error\n  entities[0].name: too short\n  no seed"
    );
}

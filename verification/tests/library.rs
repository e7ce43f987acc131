use koharu::library::{is_project_directory, sort_projects, ProjectLibrary};
use koharu::project::ProjectNameError;
use koharu::protocol::ProjectSummary;

fn summary(name: &str) -> ProjectSummary {
    ProjectSummary {
        name: name.to_owned(),
    }
}

#[test]
fn project_names_resolve_to_their_directory() {
    let library = ProjectLibrary {
        root: "/projects".to_owned(),
    };
    assert_eq!(
        library.resolve(" Volume 1 ").unwrap(),
        ("Volume 1".to_owned(), "Volume 1.khrproj".to_owned())
    );
    assert_eq!(library.resolve("aux"), Err(ProjectNameError::Reserved));
}

#[test]
fn project_directories_need_the_extension_and_a_state_file() {
    assert!(is_project_directory(Some("khrproj"), true));
    assert!(is_project_directory(Some("KHRPROJ"), true));
    assert!(!is_project_directory(Some("khrproj"), false));
    assert!(!is_project_directory(Some("khr"), true));
    assert!(!is_project_directory(None, true));
}

#[test]
fn projects_are_listed_by_lower_case_name() {
    let sorted = sort_projects(vec![summary("beta"), summary("Alpha"), summary("alpha2"), summary("Gamma")]);
    let names = sorted.iter().map(|p| p.name.as_str()).collect::<Vec<_>>();
    assert_eq!(names, ["Alpha", "alpha2", "beta", "Gamma"]);
    assert!(sort_projects(Vec::new()).is_empty());
}

use yarn_slinger::compiler::{compile, CompilationJob};
use yarn_slinger::program::{Node, Program};

const SALLY_SOURCE: &str = "title: Sally\n\
---\n\
Sally: Oh! Hi.\n\
[[See you later, Sally.|Sally.Exit]]\n\
===\n\
title: Sally.Exit\n\
---\n\
Sally: Bye.\n\
===\n";

const SHIP_SOURCE: &str = "title: Ship\n\
---\n\
Ship: Hey, friend.\n\
===\n";

fn compiled(sources: &[(&str, &str)]) -> Program {
    let mut job = CompilationJob::new();
    for (name, text) in sources {
        job = job.with_file(name.to_string(), text.to_string());
    }
    compile(job).program.unwrap()
}

#[test]
#[should_panic]
fn test_merging_nodes() {
    let result_sally = compiled(&[("Sally.yarn", SALLY_SOURCE)]);
    let result_sally_and_ship =
        compiled(&[("Sally.yarn", SALLY_SOURCE), ("Ship.yarn", SHIP_SOURCE)]);

    // Loading code with the same contents should fail the merge.
    let _combined_not_working =
        Program::combine(vec![result_sally, result_sally_and_ship]).unwrap();
}

#[test]
fn combine_with_shared_node_name_fails_and_keeps_no_partial_program() {
    let p1 = compiled(&[("a.yarn", "title: Twin\n---\n===\ntitle: Solo\n---\n===\n")]);
    let p2 = compiled(&[("b.yarn", "title: Twin\n---\n===\n")]);
    let combined = Program::combine(vec![p1, p2]);
    match combined {
        Err(name) => assert_eq!(name, "Twin"),
        Ok(_) => panic!("the merge must fail on the shared node name"),
    }
}

#[test]
fn combine_with_disjoint_node_names_sums_the_node_counts() {
    let p1 = compiled(&[("a.yarn", "title: One\n---\n===\ntitle: Two\n---\n===\n")]);
    let p2 = compiled(&[("b.yarn", "title: Three\n---\n===\n")]);
    let combined = Program::combine(vec![p1, p2]).unwrap();
    assert_eq!(combined.nodes.len(), 3);
    let names: Vec<&str> = combined.nodes.iter().map(|n| n.name.as_str()).collect();
    assert_eq!(names, vec!["One", "Two", "Three"]);
}

#[test]
fn combine_of_no_programs_is_empty() {
    let combined = Program::combine(Vec::new()).unwrap();
    assert_eq!(combined.node_count(), 0);
}

#[test]
fn add_node_rejects_a_duplicate_name() {
    let mut program = Program::new();
    let node = Node {
        name: "A".to_string(),
        headers: Vec::new(),
        tags: Vec::new(),
        instructions: Vec::new(),
    };
    assert!(program.add_node(node.clone()));
    assert!(!program.add_node(node));
    assert_eq!(program.node_count(), 1);
}

#[test]
fn get_node_finds_nodes_by_name() {
    let program = compiled(&[("a.yarn", "title: Here\n---\n===\n")]);
    assert!(program.get_node(&"Here".to_string()).is_some());
    assert!(program.get_node(&"Gone".to_string()).is_none());
    assert!(program.has_node(&"Here".to_string()));
}

use scad::ScadElement;
use scad::ScadFile;
use scad::ScadObject;
use scad::vec3;

#[test]
fn detail_test() {
    let mut sfile = ScadFile::new();

    sfile.detail = 30;

    assert_eq!(sfile.get_code(), "$fn=30;\n");

    let obj = ScadObject::new(ScadElement::Union);
    sfile.add_object(obj);

    let obj = ScadObject::new(ScadElement::Difference);
    sfile.add_object(obj);

    assert_eq!(sfile.get_code(), "$fn=30;\nunion();\ndifference();\n")
}

#[test]
fn simple_stmt_test() {
    let mut test_stmt = ScadObject::new(ScadElement::Translate(vec3(0, 0, 0)));

    assert_eq!(test_stmt.get_code(), "translate([0,0,0]);");

    test_stmt.add_child(ScadObject::new(ScadElement::Cube(vec3(1, 1, 1))));
    assert_eq!(
        test_stmt.get_code(),
        "translate([0,0,0])\n{\n\tcube([1,1,1]);\n}"
    );

    test_stmt.set_important();
    assert_eq!(
        test_stmt.get_code(),
        "!translate([0,0,0])\n{\n\tcube([1,1,1]);\n}"
    );

    test_stmt.set_highlighted();
    assert_eq!(
        test_stmt.get_code(),
        "#translate([0,0,0])\n{\n\tcube([1,1,1]);\n}"
    );

    test_stmt.set_transparent();
    assert_eq!(
        test_stmt.get_code(),
        "%translate([0,0,0])\n{\n\tcube([1,1,1]);\n}"
    );

    let test_2 = ScadObject::new(ScadElement::Union).important();
    assert_eq!(test_2.get_code(), "!union();");
}

#[test]
fn empty_file_renders_empty() {
    let sfile = ScadFile::new();
    assert_eq!(sfile.get_code(), "");

    let dfile = ScadFile::default();
    assert_eq!(dfile.get_code(), "");
}

#[test]
fn set_detail_emits_header() {
    let mut sfile = ScadFile::new();
    sfile.set_detail(30);
    assert_eq!(sfile.get_code(), "$fn=30;\n");

    sfile.set_detail(-7);
    assert_eq!(sfile.get_code(), "$fn=-7;\n");

    sfile.set_detail(0);
    assert_eq!(sfile.get_code(), "");
}

#[test]
fn element_heads() {
    assert_eq!(ScadObject::new(ScadElement::Union).get_code(), "union();");
    assert_eq!(
        ScadObject::new(ScadElement::Difference).get_code(),
        "difference();"
    );
    assert_eq!(
        ScadObject::new(ScadElement::Cube(vec3(3, 5, 1))).get_code(),
        "cube([3,5,1]);"
    );
    assert_eq!(
        ScadObject::new(ScadElement::Translate(vec3(1, 2, 3))).get_code(),
        "translate([1,2,3]);"
    );
}

#[test]
fn negative_and_extreme_coordinates() {
    let obj = ScadObject::new(ScadElement::Translate(vec3(-5, 10, 0)));
    assert_eq!(obj.get_code(), "translate([-5,10,0]);");

    let extreme = ScadObject::new(ScadElement::Cube(vec3(
        i64::MIN,
        i64::MAX,
        -1,
    )));
    assert_eq!(
        extreme.get_code(),
        "cube([-9223372036854775808,9223372036854775807,-1]);"
    );
}

#[test]
fn nested_children_compound_indentation() {
    let mut inner = ScadObject::new(ScadElement::Translate(vec3(0, 0, 0)));
    inner.add_child(ScadObject::new(ScadElement::Cube(vec3(1, 1, 1))));

    let mut outer = ScadObject::new(ScadElement::Union);
    outer.add_child(inner);

    assert_eq!(
        outer.get_code(),
        "union()\n{\n\ttranslate([0,0,0])\n\t{\n\t\tcube([1,1,1]);\n\t}\n}"
    );
}

#[test]
fn children_keep_insertion_order() {
    let mut parent = ScadObject::new(ScadElement::Difference);
    parent.add_child(ScadObject::new(ScadElement::Cube(vec3(2, 2, 2))));
    parent.add_child(ScadObject::new(ScadElement::Cube(vec3(1, 1, 1))));

    assert_eq!(
        parent.get_code(),
        "difference()\n{\n\tcube([2,2,2]);\n\tcube([1,1,1]);\n}"
    );
}

#[test]
fn modifiers_are_mutually_exclusive() {
    let mut obj = ScadObject::new(ScadElement::Union);
    assert!(!obj.is_disabled());
    assert!(!obj.is_important());
    assert!(!obj.is_highlighted());
    assert!(!obj.is_transparent());

    obj.set_important();
    assert!(!obj.is_disabled());
    assert!(obj.is_important());
    assert!(!obj.is_highlighted());
    assert!(!obj.is_transparent());

    obj.set_highlighted();
    assert!(!obj.is_important());
    assert!(obj.is_highlighted());

    obj.set_transparent();
    assert!(!obj.is_highlighted());
    assert!(obj.is_transparent());

    obj.set_disable();
    assert!(obj.is_disabled());
    assert!(!obj.is_important());
    assert!(!obj.is_highlighted());
    assert!(!obj.is_transparent());
}

#[test]
fn builder_setters_match_in_place_setters() {
    let built = ScadObject::new(ScadElement::Union).transparent();
    let mut mutated = ScadObject::new(ScadElement::Union);
    mutated.set_transparent();
    assert_eq!(built.get_code(), mutated.get_code());
    assert_eq!(built.is_transparent(), mutated.is_transparent());

    let built = ScadObject::new(ScadElement::Union).highlight();
    assert!(built.is_highlighted());
    assert_eq!(built.get_code(), "#union();");

    let built = ScadObject::new(ScadElement::Union).disable();
    assert!(built.is_disabled());

    let chained = ScadObject::new(ScadElement::Union).important().transparent();
    assert!(!chained.is_important());
    assert!(chained.is_transparent());
    assert_eq!(chained.get_code(), "%union();");
}

#[test]
fn disabled_renders_without_prefix() {
    let mut obj = ScadObject::new(ScadElement::Cube(vec3(1, 1, 1)));
    obj.set_disable();
    assert!(obj.is_disabled());
    assert_eq!(obj.get_code(), "cube([1,1,1]);");
}

#[test]
fn file_with_parent_object() {
    let mut parent = ScadObject::new(ScadElement::Translate(vec3(4, 0, 0)));
    parent.add_child(ScadObject::new(ScadElement::Cube(vec3(1, 1, 1))));

    let mut sfile = ScadFile::new();
    sfile.add_object(parent);

    assert_eq!(
        sfile.get_code(),
        "translate([4,0,0])\n{\n\tcube([1,1,1]);\n}\n"
    );
}

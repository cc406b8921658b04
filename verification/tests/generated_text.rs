use builder::descriptor::{extract, ExtractError, NamedField, TypeDescription, TypeShape};
use builder::synthesis;

fn point_description() -> TypeDescription {
    TypeDescription {
        name: "Point".to_string(),
        shape: TypeShape::NamedFields(vec![
            NamedField { name: "x".to_string(), ty: "u32".to_string() },
            NamedField { name: "y".to_string(), ty: "u32".to_string() },
        ]),
    }
}

fn command_description() -> TypeDescription {
    TypeDescription {
        name: "Command".to_string(),
        shape: TypeShape::NamedFields(vec![
            NamedField { name: "executable".to_string(), ty: "String".to_string() },
            NamedField { name: "args".to_string(), ty: "Vec<String>".to_string() },
            NamedField { name: "env".to_string(), ty: "Vec<String>".to_string() },
            NamedField { name: "working_dir".to_string(), ty: "String".to_string() },
        ]),
    }
}

#[test]
fn emits_the_exact_artifact_for_a_two_field_record() {
    let text = synthesis::derive(&point_description()).unwrap();
    let expected = "pub struct PointBuilder {\n    x: Option<u32>,\n    y: Option<u32>,\n}\nimpl Point {\n    pub fn builder() -> PointBuilder {\n        PointBuilder {\n            x: None,\n            y: None,\n        }\n    }\n}\nuse std::error::Error;\nimpl PointBuilder {\n    fn x(&mut self, x: u32) -> &mut Self {\n        self.x = Some(x);\n        self\n    }\n    fn y(&mut self, y: u32) -> &mut Self {\n        self.y = Some(y);\n        self\n    }\n    pub fn build(&mut self) -> Result<Point, Box<dyn Error>> {\n        let x = self.x.clone().ok_or(String::from(\"x not set\"))?;\n        let y = self.y.clone().ok_or(String::from(\"y not set\"))?;\n        Ok(Point {\n            x: x,\n            y: y,\n        })\n    }\n}\n";
    assert_eq!(text, expected);
}

#[test]
fn emission_routines_cover_every_field_in_order() {
    let d = extract(&command_description()).unwrap();
    assert_eq!(
        synthesis::builder_fields(&d),
        "    executable: Option<String>,\n    args: Option<Vec<String>>,\n    env: Option<Vec<String>>,\n    working_dir: Option<String>,\n"
    );
    assert_eq!(
        synthesis::builder_fields_none(&d),
        "            executable: None,\n            args: None,\n            env: None,\n            working_dir: None,\n"
    );
    assert_eq!(
        synthesis::builder_fields_build_2(&d),
        "            executable: executable,\n            args: args,\n            env: env,\n            working_dir: working_dir,\n"
    );
    let setters = synthesis::builder_fields_setter(&d);
    assert!(setters.starts_with(
        "    fn executable(&mut self, executable: String) -> &mut Self {\n        self.executable = Some(executable);\n        self\n    }\n"
    ));
    let checks = synthesis::builder_fields_build_1(&d);
    assert!(checks.contains(
        "        let args = self.args.clone().ok_or(String::from(\"args not set\"))?;\n"
    ));
}

#[test]
fn builder_type_field_order_matches_declaration_order() {
    let text = synthesis::derive(&command_description()).unwrap();
    let struct_end = text.find("}\n").unwrap();
    let builder_struct = &text[..struct_end];
    let executable = builder_struct.find("executable: Option<String>").unwrap();
    let args = builder_struct.find("args: Option<Vec<String>>").unwrap();
    let env = builder_struct.find("env: Option<Vec<String>>").unwrap();
    let working_dir = builder_struct.find("working_dir: Option<String>").unwrap();
    assert!(executable < args);
    assert!(args < env);
    assert!(env < working_dir);
}

#[test]
fn identical_descriptions_yield_identical_artifacts() {
    let first = synthesis::derive(&command_description()).unwrap();
    let second = synthesis::derive(&command_description()).unwrap();
    assert_eq!(first, second);
}

#[test]
fn whole_generation_reports_unsupported_shapes() {
    let input = TypeDescription { name: "Mode".to_string(), shape: TypeShape::Enumeration(2) };
    let e = synthesis::derive(&input).unwrap_err();
    assert_eq!(e, ExtractError::UnsupportedShape { name: "Mode".to_string() });
}

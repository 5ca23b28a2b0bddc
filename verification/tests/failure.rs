use dfim::failure::{kind_text, Failure, SourceFault, Target};
use dfim::value::Kind;

#[test]
fn kinds_are_named_as_the_guest_names_them() {
    assert_eq!(kind_text(Kind::Nil), "nil");
    assert_eq!(kind_text(Kind::Boolean), "boolean");
    assert_eq!(kind_text(Kind::Integer), "integer");
    assert_eq!(kind_text(Kind::Number), "number");
    assert_eq!(kind_text(Kind::String), "string");
    assert_eq!(kind_text(Kind::Table), "table");
    assert_eq!(kind_text(Kind::Function), "function");
    assert_eq!(kind_text(Kind::Thread), "thread");
    assert_eq!(kind_text(Kind::LightUserData), "lightuserdata");
    assert_eq!(kind_text(Kind::UserData), "userdata");
    assert_eq!(kind_text(Kind::Error), "error");
}

#[test]
fn messages_say_what_went_wrong() {
    assert_eq!(
        Failure::Conversion { from: Kind::Boolean, to: Target::Source }.message(),
        "error converting Lua boolean to Source (expected a table or string value)"
    );
    assert_eq!(
        Failure::SourceParse(SourceFault::Blank).message(),
        "value must not be empty or whitespace"
    );
    assert_eq!(
        Failure::SourceParse(SourceFault::Shape).message(),
        "expected [1], `dir` or `file` key in table"
    );
    assert_eq!(Failure::EmptySourceName.message(), "source name must not be empty");
    assert_eq!(Failure::EmptyModulePath.message(), "module parts must not be empty");
    assert_eq!(Failure::NumberOutOfRange.message(), "value is not representable as i64 or f64");
    assert_eq!(Failure::Malformed { message: "eof".into() }.message(), "eof");
    assert_eq!(Failure::PluginLoad { message: "bad chunk".into() }.message(), "bad chunk");
    assert_eq!(Failure::ProcessSpawn { message: "no such file".into() }.message(), "no such file");
    assert_eq!(Failure::MissingPathPart.message(), "at least one path part must be provided");
    assert_eq!(
        Failure::ModuleName { segment: "9x".into() }.message(),
        "module part `9x` must start with a letter and hold only letters, digits, - and _"
    );
}

use richter::console::parse::{action, ElementState, ParseError};
use richter::map::{entities, entity, entity_attribute};

fn pairs(v: &[(&str, &str)]) -> Vec<(String, String)> {
    v.iter().map(|(a, b)| (a.to_string(), b.to_string())).collect()
}

#[test]
fn test_action() {
    let s = "+up";
    assert_eq!(action(s), Ok((String::new(), (ElementState::Pressed, String::from("up")))));
}

#[test]
fn action_released_and_rejected() {
    assert_eq!(action("-attack2 x"), Ok((String::from(" x"), (ElementState::Released, String::from("attack2")))));
    assert_eq!(action("up"), Err(ParseError));
    assert_eq!(action("+"), Err(ParseError));
    assert_eq!(action("+_x"), Err(ParseError));
}

#[test]
fn entity_attribute_reads_a_line() {
    let (rest, (n, v)) = entity_attribute("\"classname\" \"worldspawn\"\nmore").unwrap();
    assert_eq!((n.as_str(), v.as_str(), rest.as_str()), ("classname", "worldspawn", "more"));
    assert!(entity_attribute("\"a\" \"b\"").is_err());
    assert!(entity_attribute("\"\" \"b\"\n").is_err());
    assert!(entity_attribute("\"a\"  \"b\"\n").is_err());
}

#[test]
fn entities_read_blocks() {
    let text = "{\n\"classname\" \"worldspawn\"\n\"wad\" \"gfx/base.wad\"\n}\n{\n\"classname\" \"light\"\n}\ntrailing";
    let (rest, e) = entity(text).unwrap();
    assert_eq!(e, pairs(&[("classname", "worldspawn"), ("wad", "gfx/base.wad")]));
    assert!(rest.starts_with("{\n\"classname\" \"light\""));
    let (rest, all) = entities(text).unwrap();
    assert_eq!(all.len(), 2);
    assert_eq!(all[1], pairs(&[("classname", "light")]));
    assert_eq!(rest, "trailing");
    assert!(entity("{\n}").is_err());
    assert_eq!(entity("{\n}\n").unwrap().1, Vec::new());
    assert_eq!(entities("x").unwrap().1.len(), 0);
}

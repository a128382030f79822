use svg::element::{Element, Node};
use svg::path::{Command, Data, Position};
use svg::value::{Decimal, Value};

fn text(s: &str) -> Value {
    Value::Text(s.to_string())
}

fn number(mantissa: i64, scale: u32) -> Value {
    Value::Number(Decimal::new(mantissa, scale))
}

#[test]
fn display() {
    let mut element = Element::new("foo");
    element.assign("x", Value::Integer(-15));
    element.assign("y", text("10px"));
    element.assign("size", Value::List(vec![number(425, 1), number(690, 1)]));
    element.assign("color", text("green"));
    element.append(Element::new("bar"));
    assert_eq!(
        element.render(),
        "<foo x='-15' y='10px' size='42.5 69' color='green'>\n<bar/>\n</foo>"
    );
}

#[test]
fn childless_element_self_closes_on_one_line() {
    let mut element = Element::new("rect");
    element.assign("width", Value::Unsigned(10));
    element.assign("fill", text("red"));
    let r = element.render();
    assert_eq!(r, "<rect width='10' fill='red'/>");
    assert!(r.ends_with("/>"));
    assert!(!r.contains('\n'));
    assert_eq!(Element::new("g").render(), "<g/>");
}

#[test]
fn children_render_one_block_each_in_order() {
    let mut inner = Element::new("g");
    inner.append(Element::new("circle"));
    let mut root = Element::new("svg");
    root.append(Element::new("a"));
    root.append(inner);
    root.append(Element::new("b"));
    assert_eq!(root.render(), "<svg>\n<a/>\n<g>\n<circle/>\n</g>\n<b/>\n</svg>");
}

#[test]
fn attributes_keep_order_and_duplicates() {
    let mut element = Element::new("e");
    element.assign("b", Value::Integer(1));
    element.assign("a", Value::Integer(2));
    element.assign("b", Value::Integer(3));
    assert_eq!(element.render(), "<e b='1' a='2' b='3'/>");
}

#[test]
fn path_data_as_attribute() {
    let data = Data::new()
        .append(Command::move_to(Position::Absolute, Decimal::new(0, 0), Decimal::new(0, 0)))
        .append(Command::close_path(Position::Relative));
    let mut path = Element::new("path");
    path.assign("d", Value::Text(data.render()));
    assert_eq!(path.render(), "<path d='M 0 0 z'/>");
}

#[test]
fn childless_element_with_line_breaks_still_self_closes() {
    assert_eq!(Element::new("a\nb").render(), "<a\nb/>");
    let mut element = Element::new("t");
    element.assign("v", text("x\ny"));
    assert_eq!(element.render(), "<t v='x\ny'/>");
    assert!(element.render().ends_with("/>"));
}

#[test]
fn children_split_into_lines() {
    let mut root = Element::new("svg");
    root.assign("w", Value::Integer(5));
    let mut second = Element::new("line");
    second.assign("x", Value::Integer(1));
    root.append(Element::new("rect"));
    root.append(second);
    let r = root.render();
    let parts: Vec<&str> = r.split('\n').collect();
    assert_eq!(parts, vec!["<svg w='5'>", "<rect/>", "<line x='1'/>", "</svg>"]);
}

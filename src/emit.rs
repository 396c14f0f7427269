//! Writing a partition tree as the source text of a boolean shader function.
//! Numbers arrive already written out; this module owns the shape of the text.
use vstd::prelude::*;
use vstd::string::StringExecFns;
use crate::tree::{LineSplitCheckGeneralized, PolygonFastPrecalculatorPart};

verus! {

/// Which coordinate a separator solves for: `y = k·x + b` or `x = k·y + b`.
#[derive(Clone, Copy, Debug, PartialEq, Eq, Structural)]
pub enum Axis {
    MulToX,
    MulToY,
}

/// A separator with its two constants written out as text.
pub struct CheckText {
    pub axis: Axis,
    pub k: String,
    pub b: String,
}

/// The normalizing frame's offset and size, written out as text.
pub struct FrameText {
    pub min_x: String,
    pub min_y: String,
    pub width: String,
    pub height: String,
}

/// The inequality that holds on the "less" side of a separator.
pub open spec fn check_text(c: CheckText) -> Seq<char> {
    match c.axis {
        Axis::MulToX => "a.y < a.x * "@ + c.k@ + " + ("@ + c.b@ + ")"@,
        Axis::MulToY => "a.x < a.y * "@ + c.k@ + " + ("@ + c.b@ + ")"@,
    }
}

/// An oriented check: the inequality, negated on the "greater" side.
pub open spec fn oriented_text(o: LineSplitCheckGeneralized, checks: Seq<CheckText>) -> Seq<char> {
    match o {
        LineSplitCheckGeneralized::Less(i) => "("@ + check_text(checks[i as int]) + ")"@,
        LineSplitCheckGeneralized::Greater(i) => "!("@ + check_text(checks[i as int]) + ")"@,
    }
}

/// One line of output under the given indentation.
pub open spec fn line(indent: Seq<char>, content: Seq<char>) -> Seq<char> {
    indent + content + "\n"@
}

/// The text of a node; children are indented two more spaces.
pub open spec fn node_text(node: PolygonFastPrecalculatorPart, indent: Seq<char>, checks: Seq<CheckText>) -> Seq<char>
    decreases node,
{
    match node {
        PolygonFastPrecalculatorPart::LineSplit { check, less, greater } => {
            let inner = indent + "  "@;
            line(indent, "if ("@ + check_text(checks[check as int]) + ") {"@)
                + node_text(*less, inner, checks)
                + line(indent, "} else {"@)
                + node_text(*greater, inner, checks)
                + line(indent, "}"@)
        },
        PolygonFastPrecalculatorPart::Triangle { checks: t } => line(
            indent,
            "return "@ + oriented_text(t[0], checks) + " && "@ + oriented_text(t[1], checks) + " && "@
                + oriented_text(t[2], checks) + ";"@,
        ),
        PolygonFastPrecalculatorPart::Empty => line(indent, "return false;"@),
    }
}

/// The whole function: it rescales its argument into the unit square, rejects
/// points outside it, and then follows the tree.
pub open spec fn program_text(
    name: Seq<char>,
    frame: FrameText,
    root: PolygonFastPrecalculatorPart,
    checks: Seq<CheckText>,
) -> Seq<char> {
    line(seq![], "bool is_inside_"@ + name + "(vec2 a) {"@)
        + line("  "@, "a = (a - vec2("@ + frame.min_x@ + ", "@ + frame.min_y@ + ")) / vec2("@
            + frame.width@ + ", "@ + frame.height@ + ");"@)
        + line("  "@, "if (0. <= a.x && a.x <= 1. && 0. <= a.y && a.y <= 1.) {"@)
        + node_text(root, "    "@, checks)
        + line("  "@, "} else {"@)
        + line("    "@, "return false;"@)
        + line("  "@, "}"@)
        + line(seq![], "}"@)
}

fn write_check(out: &mut String, c: &CheckText)
    ensures
        final(out)@ == old(out)@ + check_text(*c),
{
    match c.axis {
        Axis::MulToX => out.append("a.y < a.x * "),
        Axis::MulToY => out.append("a.x < a.y * "),
    }
    out.append(c.k.as_str());
    out.append(" + (");
    out.append(c.b.as_str());
    out.append(")");
    assert(out@ =~= old(out)@ + check_text(*c));
}

fn write_oriented(out: &mut String, o: LineSplitCheckGeneralized, checks: &Vec<CheckText>)
    requires
        o.index() < checks@.len(),
    ensures
        final(out)@ == old(out)@ + oriented_text(o, checks@),
{
    match o {
        LineSplitCheckGeneralized::Less(i) => {
            out.append("(");
            write_check(out, &checks[i]);
        },
        LineSplitCheckGeneralized::Greater(i) => {
            out.append("!(");
            write_check(out, &checks[i]);
        },
    }
    out.append(")");
    assert(out@ =~= old(out)@ + oriented_text(o, checks@));
}

fn write_line_end(out: &mut String, content: &str)
    ensures
        final(out)@ == old(out)@ + content@ + "\n"@,
{
    out.append(content);
    out.append("\n");
}

#[verifier::rlimit(60)]
fn write_triangle(out: &mut String, t: &[LineSplitCheckGeneralized; 3], indent: &str, checks: &Vec<CheckText>)
    requires
        t[0].index() < checks@.len(),
        t[1].index() < checks@.len(),
        t[2].index() < checks@.len(),
    ensures
        final(out)@ == old(out)@ + line(
            indent@,
            "return "@ + oriented_text(t[0], checks@) + " && "@ + oriented_text(t[1], checks@) + " && "@
                + oriented_text(t[2], checks@) + ";"@,
        ),
{
    out.append(indent);
    out.append("return ");
    write_oriented(out, t[0], checks);
    out.append(" && ");
    write_oriented(out, t[1], checks);
    out.append(" && ");
    write_oriented(out, t[2], checks);
    write_line_end(out, ";");
    assert(out@ =~= old(out)@ + line(
        indent@,
        "return "@ + oriented_text(t[0], checks@) + " && "@ + oriented_text(t[1], checks@) + " && "@
            + oriented_text(t[2], checks@) + ";"@,
    ));
}

fn write_split_head(out: &mut String, c: &CheckText, indent: &str)
    ensures
        final(out)@ == old(out)@ + line(indent@, "if ("@ + check_text(*c) + ") {"@),
{
    out.append(indent);
    out.append("if (");
    write_check(out, c);
    write_line_end(out, ") {");
    assert(out@ =~= old(out)@ + line(indent@, "if ("@ + check_text(*c) + ") {"@));
}

fn write_plain_line(out: &mut String, indent: &str, content: &str)
    ensures
        final(out)@ == old(out)@ + line(indent@, content@),
{
    out.append(indent);
    write_line_end(out, content);
    assert(out@ =~= old(out)@ + line(indent@, content@));
}

fn write_node(out: &mut String, node: &PolygonFastPrecalculatorPart, indent: &str, checks: &Vec<CheckText>)
    requires
        node.refs_below(checks@.len()),
    ensures
        final(out)@ == old(out)@ + node_text(*node, indent@, checks@),
    decreases node,
{
    match node {
        PolygonFastPrecalculatorPart::LineSplit { check, less, greater } => {
            let mut inner = String::from_str(indent);
            inner.append("  ");
            write_split_head(out, &checks[*check], indent);
            write_node(out, less, inner.as_str(), checks);
            write_plain_line(out, indent, "} else {");
            write_node(out, greater, inner.as_str(), checks);
            write_plain_line(out, indent, "}");
            assert(out@ =~= old(out)@ + node_text(*node, indent@, checks@));
        },
        PolygonFastPrecalculatorPart::Triangle { checks: t } => {
            write_triangle(out, t, indent, checks);
        },
        PolygonFastPrecalculatorPart::Empty => {
            write_plain_line(out, indent, "return false;");
        },
    }
}

fn write_frame(out: &mut String, frame: &FrameText)
    ensures
        final(out)@ == old(out)@ + line("  "@, "a = (a - vec2("@ + frame.min_x@ + ", "@ + frame.min_y@
            + ")) / vec2("@ + frame.width@ + ", "@ + frame.height@ + ");"@),
{
    out.append("  ");
    out.append("a = (a - vec2(");
    out.append(frame.min_x.as_str());
    out.append(", ");
    out.append(frame.min_y.as_str());
    out.append(")) / vec2(");
    out.append(frame.width.as_str());
    out.append(", ");
    out.append(frame.height.as_str());
    write_line_end(out, ");");
    assert(out@ =~= old(out)@ + line("  "@, "a = (a - vec2("@ + frame.min_x@ + ", "@ + frame.min_y@
        + ")) / vec2("@ + frame.width@ + ", "@ + frame.height@ + ");"@));
}

/// Writes the source text of a function `is_inside_<name>` that answers the
/// same query as `root`, with `checks[i]` the text of separator `i` and
/// `frame` the text of the normalizing offset and size.
pub fn emit(name: &str, frame: &FrameText, root: &PolygonFastPrecalculatorPart, checks: &Vec<CheckText>) -> (r: String)
    requires
        root.refs_below(checks@.len()),
    ensures
        r@ == program_text(name@, *frame, *root, checks@),
{
    let mut out = String::new();
    out.append("bool is_inside_");
    out.append(name);
    write_line_end(&mut out, "(vec2 a) {");
    let ghost head = out@;
    write_frame(&mut out, frame);
    write_plain_line(&mut out, "  ", "if (0. <= a.x && a.x <= 1. && 0. <= a.y && a.y <= 1.) {");
    write_node(&mut out, root, "    ", checks);
    write_plain_line(&mut out, "  ", "} else {");
    write_plain_line(&mut out, "    ", "return false;");
    write_plain_line(&mut out, "  ", "}");
    let ghost body = out@;
    write_line_end(&mut out, "}");
    assert(head =~= line(seq![], "bool is_inside_"@ + name@ + "(vec2 a) {"@));
    assert(out@ =~= body + line(seq![], "}"@));
    assert(out@ =~= program_text(name@, *frame, *root, checks@));
    out
}

} // verus!

//! The commands of the base vocabulary that need the host: for the arithmetic
//! of numbers, for its objects, or to write values.

use vstd::prelude::*;
use crate::commands::{result_value, told};
use crate::environment::FyfthEnvironment;
use crate::host::{FyfthBinaryOp, FyfthCommandError, FyfthContext, FyfthHost, FyfthUnaryOp};
use crate::language::{FyfthCommandSpec, FyfthLanguageExtension};
use crate::output::{extends, lemma_extends_self, lemma_extends_transitive, put, report};
use crate::printer::{plain_text, report_kinds, writes};
use crate::variant::{lemma_iter_view, views, FyfthValue, FyfthVariant};

verus! {

/// The kinds of values that arithmetic gives.
#[derive(Debug, Clone, Copy, PartialEq, Eq, Structural)]
pub enum FyfthShape {
    Num,
    Vec2,
    Vec3,
    Quat,
}

/// The kind of a value that arithmetic works on.
pub open spec fn shape_of(value: FyfthValue) -> Option<FyfthShape> {
    match value {
        FyfthValue::Num(_) => Some(FyfthShape::Num),
        FyfthValue::Vec2(_, _) => Some(FyfthShape::Vec2),
        FyfthValue::Vec3(_, _, _) => Some(FyfthShape::Vec3),
        FyfthValue::Quat(_, _, _, _) => Some(FyfthShape::Quat),
        _ => None,
    }
}

/// The result is a value of the kind `shape`.
pub open spec fn gives(
    result: Result<Option<FyfthVariant>, FyfthCommandError>,
    shape: FyfthShape,
) -> bool {
    result matches Ok(Some(value)) && shape_of(value@) == Some(shape)
}

/// The kind of the product of two values, if `mul` takes them: numbers,
/// pairs and triples with each other or with a number, rotations with
/// each other.
pub open spec fn mul_shape(left: FyfthValue, right: FyfthValue) -> Option<FyfthShape> {
    match (shape_of(left), shape_of(right)) {
        (Some(FyfthShape::Num), Some(FyfthShape::Num)) => Some(FyfthShape::Num),
        (Some(FyfthShape::Vec2), Some(FyfthShape::Num)) => Some(FyfthShape::Vec2),
        (Some(FyfthShape::Vec3), Some(FyfthShape::Num)) => Some(FyfthShape::Vec3),
        (Some(FyfthShape::Num), Some(FyfthShape::Vec2)) => Some(FyfthShape::Vec2),
        (Some(FyfthShape::Num), Some(FyfthShape::Vec3)) => Some(FyfthShape::Vec3),
        (Some(FyfthShape::Vec2), Some(FyfthShape::Vec2)) => Some(FyfthShape::Vec2),
        (Some(FyfthShape::Vec3), Some(FyfthShape::Vec3)) => Some(FyfthShape::Vec3),
        (Some(FyfthShape::Quat), Some(FyfthShape::Quat)) => Some(FyfthShape::Quat),
        _ => None,
    }
}

/// The kind of the quotient of two values, if `div` takes them: numbers,
/// pairs and triples by each other or by a number.
pub open spec fn div_shape(left: FyfthValue, right: FyfthValue) -> Option<FyfthShape> {
    match (shape_of(left), shape_of(right)) {
        (Some(FyfthShape::Num), Some(FyfthShape::Num)) => Some(FyfthShape::Num),
        (Some(FyfthShape::Vec2), Some(FyfthShape::Num)) => Some(FyfthShape::Vec2),
        (Some(FyfthShape::Vec3), Some(FyfthShape::Num)) => Some(FyfthShape::Vec3),
        (Some(FyfthShape::Vec2), Some(FyfthShape::Vec2)) => Some(FyfthShape::Vec2),
        (Some(FyfthShape::Vec3), Some(FyfthShape::Vec3)) => Some(FyfthShape::Vec3),
        _ => None,
    }
}

/// `op` on two values part by part, a number standing for each part of the
/// other value.
fn part_by_part<H: FyfthHost>(
    world: &H,
    op: FyfthBinaryOp,
    left: &FyfthVariant,
    right: &FyfthVariant,
) -> (result: Option<FyfthVariant>)
    ensures
        match (shape_of(left@), shape_of(right@)) {
            (Some(FyfthShape::Num), Some(FyfthShape::Num)) => result matches Some(value)
                && shape_of(value@) == Some(FyfthShape::Num),
            (Some(FyfthShape::Vec2), Some(FyfthShape::Num))
            | (Some(FyfthShape::Num), Some(FyfthShape::Vec2))
            | (Some(FyfthShape::Vec2), Some(FyfthShape::Vec2)) => result matches Some(value)
                && shape_of(value@) == Some(FyfthShape::Vec2),
            (Some(FyfthShape::Vec3), Some(FyfthShape::Num))
            | (Some(FyfthShape::Num), Some(FyfthShape::Vec3))
            | (Some(FyfthShape::Vec3), Some(FyfthShape::Vec3)) => result matches Some(value)
                && shape_of(value@) == Some(FyfthShape::Vec3),
            _ => result is None,
        },
{
    match (left, right) {
        (FyfthVariant::Num(a), FyfthVariant::Num(b)) => Some(
            FyfthVariant::Num(world.binary(op, *a, *b)),
        ),
        (FyfthVariant::Vec2(ax, ay), FyfthVariant::Num(b)) => Some(
            FyfthVariant::Vec2(world.binary(op, *ax, *b), world.binary(op, *ay, *b)),
        ),
        (FyfthVariant::Num(a), FyfthVariant::Vec2(bx, by)) => Some(
            FyfthVariant::Vec2(world.binary(op, *a, *bx), world.binary(op, *a, *by)),
        ),
        (FyfthVariant::Vec2(ax, ay), FyfthVariant::Vec2(bx, by)) => Some(
            FyfthVariant::Vec2(world.binary(op, *ax, *bx), world.binary(op, *ay, *by)),
        ),
        (FyfthVariant::Vec3(ax, ay, az), FyfthVariant::Num(b)) => Some(
            FyfthVariant::Vec3(
                world.binary(op, *ax, *b),
                world.binary(op, *ay, *b),
                world.binary(op, *az, *b),
            ),
        ),
        (FyfthVariant::Num(a), FyfthVariant::Vec3(bx, by, bz)) => Some(
            FyfthVariant::Vec3(
                world.binary(op, *a, *bx),
                world.binary(op, *a, *by),
                world.binary(op, *a, *bz),
            ),
        ),
        (FyfthVariant::Vec3(ax, ay, az), FyfthVariant::Vec3(bx, by, bz)) => Some(
            FyfthVariant::Vec3(
                world.binary(op, *ax, *bx),
                world.binary(op, *ay, *by),
                world.binary(op, *az, *bz),
            ),
        ),
        _ => None,
    }
}

/// What `add` gives for two values, as far as the engine decides it: the
/// texts one after the other for two texts; a text that begins with the first
/// for a text and a number; a number, pair or triple for two of a kind;
/// nothing for an object and a component, which the object is given.
pub open spec fn add_holds(
    left: FyfthValue,
    right: FyfthValue,
    result: Result<Option<FyfthVariant>, FyfthCommandError>,
) -> bool {
    match (left, right) {
        (FyfthValue::Num(_), FyfthValue::Num(_)) => gives(result, FyfthShape::Num),
        (FyfthValue::Vec2(_, _), FyfthValue::Vec2(_, _)) => gives(result, FyfthShape::Vec2),
        (FyfthValue::Vec3(_, _, _), FyfthValue::Vec3(_, _, _)) => gives(result, FyfthShape::Vec3),
        (FyfthValue::Literal(first), FyfthValue::Num(_)) => result matches Ok(
            Some(FyfthVariant::Literal(text)),
        ) && extends(first, text@),
        (FyfthValue::Literal(first), FyfthValue::Literal(second)) => result_value(result) == Ok::<
            Option<FyfthValue>,
            FyfthCommandError,
        >(Some(FyfthValue::Literal(first + second))),
        (FyfthValue::Entity(_), FyfthValue::Component(_)) => result matches Ok(None),
        _ => result matches Err(FyfthCommandError::TypeError),
    }
}

/// `add`: the sum of two numbers, pairs or triples; a text with a number or
/// a text written behind it; or an object is given a component.
pub fn fyfth_func_add<H: FyfthHost>(ctx: FyfthContext<'_, H>, args: &[FyfthVariant]) -> (result:
    Result<Option<FyfthVariant>, FyfthCommandError>)
    requires
        args.len() == 2,
    ensures
        add_holds(args[0]@, args[1]@, result),
        final(ctx.vars)@ == old(ctx.vars)@,
        told(result is Err, old(ctx.output)@, final(ctx.output)@),
{
    match (&args[0], &args[1]) {
        (FyfthVariant::Num(_), FyfthVariant::Num(_))
        | (FyfthVariant::Vec2(_, _), FyfthVariant::Vec2(_, _))
        | (FyfthVariant::Vec3(_, _, _), FyfthVariant::Vec3(_, _, _)) => {
            Ok(part_by_part(&*ctx.world, FyfthBinaryOp::Add, &args[0], &args[1]))
        },
        (FyfthVariant::Literal(first), FyfthVariant::Num(number)) => {
            let mut text = first.clone();
            let written = ctx.world.format_number(*number);
            put(&mut text, written.as_str());
            Ok(Some(FyfthVariant::Literal(text)))
        },
        (FyfthVariant::Literal(first), FyfthVariant::Literal(second)) => {
            let mut text = first.clone();
            put(&mut text, second.as_str());
            Ok(Some(FyfthVariant::Literal(text)))
        },
        (FyfthVariant::Entity(entity), FyfthVariant::Component(component)) => {
            ctx.world.insert_component(*entity, *component);
            Ok(None)
        },
        _ => {
            report_kinds(ctx.output, &*ctx.world, "add", args);
            Err(FyfthCommandError::TypeError)
        },
    }
}

/// `sub`: the difference of two numbers.
pub fn fyfth_func_sub<H: FyfthHost>(ctx: FyfthContext<'_, H>, args: &[FyfthVariant]) -> (result:
    Result<Option<FyfthVariant>, FyfthCommandError>)
    requires
        args.len() == 2,
    ensures
        args[0]@ is Num && args[1]@ is Num ==> gives(result, FyfthShape::Num),
        !(args[0]@ is Num && args[1]@ is Num) ==> result matches Err(FyfthCommandError::TypeError),
        final(ctx.vars)@ == old(ctx.vars)@,
        told(result is Err, old(ctx.output)@, final(ctx.output)@),
{
    match (&args[0], &args[1]) {
        (FyfthVariant::Num(left), FyfthVariant::Num(right)) => Ok(
            Some(FyfthVariant::Num(ctx.world.binary(FyfthBinaryOp::Sub, *left, *right))),
        ),
        _ => {
            report_kinds(ctx.output, &*ctx.world, "sub", args);
            Err(FyfthCommandError::TypeError)
        },
    }
}

/// `mul`: the product of two values.
pub fn fyfth_func_mul<H: FyfthHost>(ctx: FyfthContext<'_, H>, args: &[FyfthVariant]) -> (result:
    Result<Option<FyfthVariant>, FyfthCommandError>)
    requires
        args.len() == 2,
    ensures
        match mul_shape(args[0]@, args[1]@) {
            Some(shape) => gives(result, shape),
            None => result matches Err(FyfthCommandError::TypeError),
        },
        final(ctx.vars)@ == old(ctx.vars)@,
        told(result is Err, old(ctx.output)@, final(ctx.output)@),
{
    match (&args[0], &args[1]) {
        (FyfthVariant::Quat(ax, ay, az, aw), FyfthVariant::Quat(bx, by, bz, bw)) => {
            let (x, y, z, w) = ctx.world.quat_mul((*ax, *ay, *az, *aw), (*bx, *by, *bz, *bw));
            Ok(Some(FyfthVariant::Quat(x, y, z, w)))
        },
        _ => match part_by_part(&*ctx.world, FyfthBinaryOp::Mul, &args[0], &args[1]) {
            Some(value) => Ok(Some(value)),
            None => {
                report_kinds(ctx.output, &*ctx.world, "mul", args);
                Err(FyfthCommandError::TypeError)
            },
        },
    }
}

/// `div`: the quotient of two values.
pub fn fyfth_func_div<H: FyfthHost>(ctx: FyfthContext<'_, H>, args: &[FyfthVariant]) -> (result:
    Result<Option<FyfthVariant>, FyfthCommandError>)
    requires
        args.len() == 2,
    ensures
        match div_shape(args[0]@, args[1]@) {
            Some(shape) => gives(result, shape),
            None => result matches Err(FyfthCommandError::TypeError),
        },
        final(ctx.vars)@ == old(ctx.vars)@,
        told(result is Err, old(ctx.output)@, final(ctx.output)@),
{
    match (&args[0], &args[1]) {
        (FyfthVariant::Num(_), FyfthVariant::Vec2(_, _))
        | (FyfthVariant::Num(_), FyfthVariant::Vec3(_, _, _)) => {
            report_kinds(ctx.output, &*ctx.world, "div", args);
            Err(FyfthCommandError::TypeError)
        },
        _ => match part_by_part(&*ctx.world, FyfthBinaryOp::Div, &args[0], &args[1]) {
            Some(value) => Ok(Some(value)),
            None => {
                report_kinds(ctx.output, &*ctx.world, "div", args);
                Err(FyfthCommandError::TypeError)
            },
        },
    }
}

/// A command on one number: `sin`, `cos`, `tan`, `atan`.
fn on_number<H: FyfthHost>(
    ctx: FyfthContext<'_, H>,
    op: FyfthUnaryOp,
    args: &[FyfthVariant],
) -> (result:
    Result<Option<FyfthVariant>, FyfthCommandError>)
    requires
        args.len() == 1,
    ensures
        args[0]@ is Num ==> gives(result, FyfthShape::Num),
        !(args[0]@ is Num) ==> result matches Err(FyfthCommandError::TypeError),
        final(ctx.vars)@ == old(ctx.vars)@,
        told(result is Err, old(ctx.output)@, final(ctx.output)@),
{
    match &args[0] {
        FyfthVariant::Num(operand) => Ok(Some(FyfthVariant::Num(ctx.world.unary(op, *operand)))),
        _ => {
            report(ctx.output, "Syntax error: the operation needs to operate on `num`.");
            Err(FyfthCommandError::TypeError)
        },
    }
}

/// `sin`: the sine of a number.
pub fn fyfth_func_sin<H: FyfthHost>(ctx: FyfthContext<'_, H>, args: &[FyfthVariant]) -> (result:
    Result<Option<FyfthVariant>, FyfthCommandError>)
    requires
        args.len() == 1,
    ensures
        args[0]@ is Num ==> gives(result, FyfthShape::Num),
        !(args[0]@ is Num) ==> result matches Err(FyfthCommandError::TypeError),
        final(ctx.vars)@ == old(ctx.vars)@,
        told(result is Err, old(ctx.output)@, final(ctx.output)@),
{
    on_number(ctx, FyfthUnaryOp::Sin, args)
}

/// `cos`: the cosine of a number.
pub fn fyfth_func_cos<H: FyfthHost>(ctx: FyfthContext<'_, H>, args: &[FyfthVariant]) -> (result:
    Result<Option<FyfthVariant>, FyfthCommandError>)
    requires
        args.len() == 1,
    ensures
        args[0]@ is Num ==> gives(result, FyfthShape::Num),
        !(args[0]@ is Num) ==> result matches Err(FyfthCommandError::TypeError),
        final(ctx.vars)@ == old(ctx.vars)@,
        told(result is Err, old(ctx.output)@, final(ctx.output)@),
{
    on_number(ctx, FyfthUnaryOp::Cos, args)
}

/// `tan`: the tangent of a number.
pub fn fyfth_func_tan<H: FyfthHost>(ctx: FyfthContext<'_, H>, args: &[FyfthVariant]) -> (result:
    Result<Option<FyfthVariant>, FyfthCommandError>)
    requires
        args.len() == 1,
    ensures
        args[0]@ is Num ==> gives(result, FyfthShape::Num),
        !(args[0]@ is Num) ==> result matches Err(FyfthCommandError::TypeError),
        final(ctx.vars)@ == old(ctx.vars)@,
        told(result is Err, old(ctx.output)@, final(ctx.output)@),
{
    on_number(ctx, FyfthUnaryOp::Tan, args)
}

/// `atan`: the arc tangent of a number.
pub fn fyfth_func_atan<H: FyfthHost>(ctx: FyfthContext<'_, H>, args: &[FyfthVariant]) -> (result:
    Result<Option<FyfthVariant>, FyfthCommandError>)
    requires
        args.len() == 1,
    ensures
        args[0]@ is Num ==> gives(result, FyfthShape::Num),
        !(args[0]@ is Num) ==> result matches Err(FyfthCommandError::TypeError),
        final(ctx.vars)@ == old(ctx.vars)@,
        told(result is Err, old(ctx.output)@, final(ctx.output)@),
{
    on_number(ctx, FyfthUnaryOp::Atan, args)
}

/// `atan2`: the arc tangent of the quotient of two numbers, by quadrant.
pub fn fyfth_func_atan2<H: FyfthHost>(ctx: FyfthContext<'_, H>, args: &[FyfthVariant]) -> (result:
    Result<Option<FyfthVariant>, FyfthCommandError>)
    requires
        args.len() == 2,
    ensures
        args[0]@ is Num && args[1]@ is Num ==> gives(result, FyfthShape::Num),
        !(args[0]@ is Num && args[1]@ is Num) ==> result matches Err(FyfthCommandError::TypeError),
        final(ctx.vars)@ == old(ctx.vars)@,
        told(result is Err, old(ctx.output)@, final(ctx.output)@),
{
    match (&args[0], &args[1]) {
        (FyfthVariant::Num(left), FyfthVariant::Num(right)) => Ok(
            Some(FyfthVariant::Num(ctx.world.binary(FyfthBinaryOp::Atan2, *left, *right))),
        ),
        _ => {
            report(ctx.output, "Syntax error: the operation `atan2` needs to operate on `num num`.");
            Err(FyfthCommandError::TypeError)
        },
    }
}

/// The four arguments are numbers.
pub open spec fn four_numbers(args: Seq<FyfthValue>) -> bool {
    args[0] is Num && args[1] is Num && args[2] is Num && args[3] is Num
}

/// `quat`: the rotation with the parts `x`, `y`, `z`, `w`, scaled to length one.
pub fn fyfth_func_quat<H: FyfthHost>(ctx: FyfthContext<'_, H>, args: &[FyfthVariant]) -> (result:
    Result<Option<FyfthVariant>, FyfthCommandError>)
    requires
        args.len() == 4,
    ensures
        four_numbers(views(args@)) ==> gives(result, FyfthShape::Quat),
        !four_numbers(views(args@)) ==> result matches Err(FyfthCommandError::TypeError),
        final(ctx.vars)@ == old(ctx.vars)@,
        told(result is Err, old(ctx.output)@, final(ctx.output)@),
{
    match (&args[0], &args[1], &args[2], &args[3]) {
        (
            FyfthVariant::Num(x),
            FyfthVariant::Num(y),
            FyfthVariant::Num(z),
            FyfthVariant::Num(w),
        ) => {
            let (x, y, z, w) = ctx.world.quat_normalize((*x, *y, *z, *w));
            Ok(Some(FyfthVariant::Quat(x, y, z, w)))
        },
        _ => {
            report(
                ctx.output,
                "Syntax error: the operation `quat` needs to operate on `num num num num`.",
            );
            Err(FyfthCommandError::TypeError)
        },
    }
}

/// Every item of the sequence is an object.
pub open spec fn all_entities(items: Seq<FyfthValue>) -> bool {
    forall|i: int| 0 <= i < items.len() ==> (#[trigger] items[i]) is Entity
}

/// `entities`: the objects of the host that the language may see.
#[verifier::loop_isolation(false)]
pub fn fyfth_func_entities<H: FyfthHost>(
    ctx: FyfthContext<'_, H>,
    args: &[FyfthVariant],
) -> (result:
    Result<Option<FyfthVariant>, FyfthCommandError>)
    requires
        args.len() == 0,
    ensures
        result matches Ok(Some(found)) && found@ matches FyfthValue::Iter(items) && all_entities(
            items,
        ),
        final(ctx.vars)@ == old(ctx.vars)@,
        final(ctx.output)@ == old(ctx.output)@,
{
    let handles = ctx.world.entities();
    let mut items: Vec<FyfthVariant> = Vec::new();
    let mut at: usize = 0;
    while at < handles.len()
        invariant
            at <= handles.len(),
            all_entities(views(items@)),
        decreases handles.len() - at,
    {
        let ghost before = views(items@);
        items.push(FyfthVariant::Entity(handles[at]));
        assert(views(items@) =~= before.push(FyfthValue::Entity(handles@[at as int])));
        at += 1;
    }
    proof {
        lemma_iter_view(items);
    }
    Ok(Some(FyfthVariant::Iter(items)))
}

/// `name`: the name of an object, `nil` if it has none; or the type path of a
/// component.
pub fn fyfth_func_name<H: FyfthHost>(ctx: FyfthContext<'_, H>, args: &[FyfthVariant]) -> (result:
    Result<Option<FyfthVariant>, FyfthCommandError>)
    requires
        args.len() == 1,
    ensures
        match args[0]@ {
            FyfthValue::Entity(_) => result matches Ok(Some(name)) && (name@ is Literal || name@
                is Nil),
            FyfthValue::Component(_) => result matches Ok(Some(FyfthVariant::Literal(_))),
            _ => result matches Err(FyfthCommandError::TypeError),
        },
        final(ctx.vars)@ == old(ctx.vars)@,
        told(result is Err, old(ctx.output)@, final(ctx.output)@),
{
    match &args[0] {
        FyfthVariant::Entity(entity) => {
            match ctx.world.visible_entity_name(*entity) {
                Some(name) => Ok(Some(FyfthVariant::Literal(name))),
                None => Ok(Some(FyfthVariant::Nil)),
            }
        },
        FyfthVariant::Component(component) => Ok(
            Some(FyfthVariant::Literal(ctx.world.component_type_path(*component))),
        ),
        _ => {
            report(ctx.output, "Syntax error: the operation `name` needs to operate on `Entity`.");
            Err(FyfthCommandError::TypeError)
        },
    }
}

/// `print`: writes a value to the output.
pub fn fyfth_func_print<H: FyfthHost>(ctx: FyfthContext<'_, H>, args: &[FyfthVariant]) -> (result:
    Result<Option<FyfthVariant>, FyfthCommandError>)
    requires
        args.len() == 1,
    ensures
        result matches Ok(None),
        final(ctx.vars)@ == old(ctx.vars)@,
        exists|text: Seq<char>|
            final(ctx.output)@ == old(ctx.output)@ + text && #[trigger] writes(
                args[0]@,
                ctx.lang.commands(),
                text,
            ),
        plain_text(args[0]@, ctx.lang.commands()) matches Some(text) ==> final(ctx.output)@
            == old(ctx.output)@ + text,
        extends(old(ctx.output)@, final(ctx.output)@),
{
    args[0].pretty_print(ctx.output, &*ctx.world, ctx.lang);
    Ok(None)
}

/// How the first `count` bindings are written, for bindings to values that
/// hold no number and no handle of the host: one to a line, the name in double
/// quotes, a colon between blanks, the value.
pub open spec fn bindings_text(
    bindings: Seq<(Seq<char>, FyfthValue)>,
    count: nat,
    commands: Seq<FyfthCommandSpec>,
) -> Option<Seq<char>>
    decreases count,
{
    if count == 0 || count > bindings.len() {
        Some(Seq::empty())
    } else {
        match (
            bindings_text(bindings, (count - 1) as nat, commands),
            plain_text(bindings[count - 1].1, commands),
        ) {
            (Some(before), Some(value)) => Some(
                before + "\""@ + bindings[count - 1].0 + "\" : "@ + value + "\n"@,
            ),
            _ => None,
        }
    }
}

/// Writes the variables to `output`, one to a line: the name in double quotes,
/// a colon, the value.
#[verifier::loop_isolation(false)]
fn put_vars<H: FyfthHost>(
    output: &mut String,
    world: &H,
    vars: &FyfthEnvironment,
    lang: &FyfthLanguageExtension,
)
    ensures
        extends(old(output)@, final(output)@),
        bindings_text(vars.bindings(), vars.bindings().len(), lang.commands()) matches Some(text)
            ==> final(output)@ == old(output)@ + text,
{
    let ghost start = output@;
    let ghost commands = lang.commands();
    proof {
        lemma_extends_self(output@);
        assert(start + Seq::<char>::empty() =~= start);
    }
    let mut at: usize = 0;
    let count = vars.len();
    while at < count
        invariant
            at <= count,
            count == vars.bindings().len(),
            extends(start, output@),
            bindings_text(vars.bindings(), at as nat, commands) matches Some(text) ==> output@
                == start + text,
        decreases count - at,
    {
        let ghost a = output@;
        put(output, "\"");
        let ghost b = output@;
        put(output, vars.name_at(at));
        let ghost c = output@;
        put(output, "\" : ");
        let ghost d = output@;
        vars.value_at(at).pretty_print(output, world, lang);
        let ghost e = output@;
        put(output, "\n");
        proof {
            lemma_extends_transitive(a, b, c);
            lemma_extends_transitive(a, c, d);
            lemma_extends_transitive(a, d, e);
            lemma_extends_transitive(a, e, output@);
            lemma_extends_transitive(start, a, output@);
            let so_far = bindings_text(vars.bindings(), at as nat, commands);
            let value = plain_text(vars.bindings()[at as int].1, commands);
            if so_far is Some && value is Some {
                assert(output@ =~= start + (so_far->0 + "\""@ + vars.bindings()[at as int].0
                    + "\" : "@ + value->0 + "\n"@));
            }
        }
        at += 1;
    }
}

/// `print_vars`: writes the variables to the output.
pub fn fyfth_func_print_vars<H: FyfthHost>(
    ctx: FyfthContext<'_, H>,
    args: &[FyfthVariant],
) -> (result:
    Result<Option<FyfthVariant>, FyfthCommandError>)
    requires
        args.len() == 0,
    ensures
        result matches Ok(None),
        final(ctx.vars)@ == old(ctx.vars)@,
        final(ctx.vars).bindings() == old(ctx.vars).bindings(),
        extends(old(ctx.output)@, final(ctx.output)@),
        bindings_text(
            old(ctx.vars).bindings(),
            old(ctx.vars).bindings().len(),
            ctx.lang.commands(),
        ) matches Some(text) ==> final(ctx.output)@ == old(ctx.output)@ + text,
{
    put_vars(ctx.output, &*ctx.world, &*ctx.vars, ctx.lang);
    Ok(None)
}

} // verus!

//! How values are written for the user.

use vstd::prelude::*;
use crate::host::FyfthHost;
use crate::language::{FyfthCommandSpec, FyfthLanguageExtension};
use crate::num::FyfthNum;
use crate::output::{extends, lemma_extends_transitive, put, report, reports};
use crate::text::{decimal, push_decimal};
use crate::variant::{lemma_iter_view, views, FyfthValue, FyfthVariant};

verus! {

/// The name of the kind of a value. The kind of a component is named by the
/// host.
pub open spec fn kind_name(value: FyfthValue) -> Option<Seq<char>> {
    match value {
        FyfthValue::Nil => Some("nil"@),
        FyfthValue::Bool(_) => Some("bool"@),
        FyfthValue::Num(_) => Some("num"@),
        FyfthValue::Literal(_) => Some("literal"@),
        FyfthValue::Entity(_) => Some("Entity"@),
        FyfthValue::Iter(_) => Some("iter"@),
        FyfthValue::Vec2(_, _) => Some("vec2"@),
        FyfthValue::Vec3(_, _, _) => Some("vec3"@),
        FyfthValue::Quat(_, _, _, _) => Some("quat"@),
        FyfthValue::Component(_) => None,
        FyfthValue::Macro | FyfthValue::LineEnd => Some("special"@),
        _ => Some("func"@),
    }
}

impl FyfthVariant {
    /// Adds the name of the kind of `self` to `output`. For a component the
    /// host names it; one that the host has no name for is an
    /// `anonymous component`.
    pub fn pretty_print_type<H: FyfthHost>(&self, output: &mut String, world: &H)
        ensures
            extends(old(output)@, final(output)@),
            kind_name(self@) matches Some(name) ==> final(output)@ == old(output)@ + name,
    {
        match self {
            FyfthVariant::Nil => put(output, "nil"),
            FyfthVariant::Bool(_) => put(output, "bool"),
            FyfthVariant::Num(_) => put(output, "num"),
            FyfthVariant::Literal(_) => put(output, "literal"),
            FyfthVariant::Entity(_) => put(output, "Entity"),
            FyfthVariant::Iter(_) => put(output, "iter"),
            FyfthVariant::Vec2(_, _) => put(output, "vec2"),
            FyfthVariant::Vec3(_, _, _) => put(output, "vec3"),
            FyfthVariant::Quat(_, _, _, _) => put(output, "quat"),
            FyfthVariant::Component(component) => {
                match world.component_type_ident(*component) {
                    Some(ident) => put(output, ident.as_str()),
                    None => put(output, "anonymous component"),
                }
            },
            FyfthVariant::Macro | FyfthVariant::LineEnd => put(output, "special"),
            _ => put(output, "func"),
        }
    }
}

/// Adds to `output` the diagnostic of a command that was given arguments of
/// kinds that it does not take: the command's name and the kinds.
#[verifier::loop_isolation(false)]
pub(crate) fn report_kinds<H: FyfthHost>(
    output: &mut String,
    world: &H,
    operation: &str,
    args: &[FyfthVariant],
)
    ensures
        reports(old(output)@, final(output)@),
{
    report(output, "Syntax error: the operation `");
    let ghost first = output@;
    put(output, operation);
    let ghost second = output@;
    put(output, "` is incompatible with types `");
    proof {
        lemma_extends_transitive(first, second, output@);
        lemma_extends_transitive(old(output)@, first, output@);
    }
    let mut at: usize = 0;
    while at < args.len()
        invariant
            at <= args.len(),
            reports(old(output)@, output@),
        decreases args.len() - at,
    {
        let ghost before = output@;
        args[at].pretty_print_type(output, world);
        let ghost middle = output@;
        put(output, " ");
        proof {
            lemma_extends_transitive(before, middle, output@);
            lemma_extends_transitive(old(output)@, before, output@);
        }
        at += 1;
    }
    let ghost before = output@;
    put(output, "`.");
    proof {
        lemma_extends_transitive(old(output)@, before, output@);
    }
}

/// Whether `bits` are the bits of an object handle, as
/// `bevy::ecs::entity::Entity::try_from_bits` tells.
pub uninterp spec fn entity_valid(bits: u64) -> bool;

/// How the object handle with the bits `bits` is written, by the `Display` of
/// `bevy::ecs::entity::Entity`.
pub uninterp spec fn entity_display(bits: u64) -> Seq<char>;

/// Calls `bevy::ecs::entity::Entity::try_from_bits` and the `to_string` of the
/// handle that it gives: the text that writes the handle, or `None` if `bits`
/// are not the bits of a handle.
#[verifier::external_body]
fn entity_text(bits: u64) -> (text: Option<String>)
    ensures
        text is Some <==> entity_valid(bits),
        text matches Some(written) ==> written@ == entity_display(bits),
{
    bevy::ecs::entity::Entity::try_from_bits(bits).ok().map(|entity| entity.to_string())
}

/// How an object is written without its name: its handle, or its bits as a
/// number where they are not the bits of a handle.
pub open spec fn handle_text(bits: u64) -> Seq<char> {
    if entity_valid(bits) {
        entity_display(bits)
    } else {
        decimal(bits as nat)
    }
}

/// How an object is written: its handle in round brackets, with its name in
/// double quotes behind a dash if it has one.
pub open spec fn object_text(bits: u64, name: Option<Seq<char>>) -> Seq<char> {
    match name {
        Some(name) => "("@ + handle_text(bits) + " - \""@ + name + "\")"@,
        None => "("@ + handle_text(bits) + ")"@,
    }
}

/// The first `count` texts one after the other, with `separator` between two.
pub open spec fn joined(parts: Seq<Seq<char>>, count: nat, separator: Seq<char>) -> Seq<char>
    decreases count,
{
    if count == 0 || count > parts.len() {
        Seq::empty()
    } else if count == 1 {
        parts[0]
    } else {
        joined(parts, (count - 1) as nat, separator) + separator + parts[count - 1]
    }
}

/// How a tuple of numbers is written, given how its numbers are written: its
/// label, then the numbers in round brackets with a blank between two.
pub open spec fn tuple_text(label: Seq<char>, parts: Seq<Seq<char>>) -> Seq<char> {
    label + "("@ + joined(parts, parts.len(), " "@) + ")"@
}

/// How a sequence is written, given how its items are written:
/// `[<n> items; <item>, <item>, ..]`.
pub open spec fn sequence_text(parts: Seq<Seq<char>>) -> Seq<char> {
    "["@ + decimal(parts.len()) + " items; "@ + joined(parts, parts.len(), ", "@) + "]"@
}

/// How a value is written, for a value that holds no number and no handle of
/// the host: those the host writes, and for a value that holds one this is
/// `None`. A text stands in double quotes; a sequence is written as
/// `[<n> items; <item>, <item>, ..]`; a control word as the source writes it; a
/// command as its keyword.
pub open spec fn plain_text(value: FyfthValue, commands: Seq<FyfthCommandSpec>) -> Option<Seq<char>>
    decreases value, 0nat,
{
    match value {
        FyfthValue::Nil => Some("nil"@),
        FyfthValue::Bool(b) => Some(
            if b {
                "true"@
            } else {
                "false"@
            },
        ),
        FyfthValue::Literal(text) => Some("\""@ + text + "\""@),
        FyfthValue::Iter(items) => match plain_items(items, items.len(), commands, ", "@) {
            Some(inner) => Some("["@ + decimal(items.len()) + " items; "@ + inner + "]"@),
            None => None,
        },
        FyfthValue::FnIter => Some("iter"@),
        FyfthValue::Macro => Some("macro"@),
        FyfthValue::LineEnd => Some(";"@),
        FyfthValue::FnQueue => Some("queue"@),
        FyfthValue::FnDup => Some("dup"@),
        FyfthValue::FnSwap => Some("swap"@),
        FyfthValue::FnSwapN => Some("swap_n"@),
        FyfthValue::FnRotRN => Some("rotr"@),
        FyfthValue::FnRotLN => Some("rotl"@),
        FyfthValue::FnPush => Some("push"@),
        FyfthValue::LangFunc(index) => if index < commands.len() {
            Some(commands[index as int].keyword)
        } else {
            None
        },
        _ => None,
    }
}

/// How the first `count` items of a sequence are written: one after the
/// other, with `separator` between two. `None` if one of them holds a number
/// or a handle of the host.
pub open spec fn plain_items(
    items: Seq<FyfthValue>,
    count: nat,
    commands: Seq<FyfthCommandSpec>,
    separator: Seq<char>,
) -> Option<Seq<char>>
    decreases items, count,
{
    if count == 0 || count > items.len() {
        Some(Seq::empty())
    } else {
        match (
            plain_items(items, (count - 1) as nat, commands, separator),
            plain_text(items[count - 1], commands),
        ) {
            (Some(before), Some(last)) => Some(
                if count == 1 {
                    last
                } else {
                    before + separator + last
                },
            ),
            _ => None,
        }
    }
}

/// `text` is a way to write `value`. A number and a component are written as
/// the host writes them. An object is written as [`object_text`] says, a tuple
/// of numbers as [`tuple_text`] says and a sequence as [`sequence_text`] says,
/// each with its parts written in one of their ways. A command whose index
/// names no command is written as a question mark. Every other value is
/// written as [`plain_text`] says.
pub open spec fn writes(value: FyfthValue, commands: Seq<FyfthCommandSpec>, text: Seq<char>) -> bool
    decreases value,
{
    match value {
        FyfthValue::Num(_) | FyfthValue::Component(_) => true,
        FyfthValue::Entity(bits) => exists|name: Option<Seq<char>>|
            text == #[trigger] object_text(bits, name),
        FyfthValue::Vec2(_, _) => exists|parts: Seq<Seq<char>>|
            parts.len() == 2 && text == #[trigger] tuple_text("vec2"@, parts),
        FyfthValue::Vec3(_, _, _) => exists|parts: Seq<Seq<char>>|
            parts.len() == 3 && text == #[trigger] tuple_text("vec3"@, parts),
        FyfthValue::Quat(_, _, _, _) => exists|parts: Seq<Seq<char>>|
            parts.len() == 4 && text == #[trigger] tuple_text("quat"@, parts),
        FyfthValue::Iter(items) => exists|parts: Seq<Seq<char>>|
            #![trigger sequence_text(parts)]
            parts.len() == items.len() && (forall|i: int|
                0 <= i < items.len() ==> writes(items[i], commands, #[trigger] parts[i])) && text
                == sequence_text(parts),
        FyfthValue::LangFunc(index) => text == if index < commands.len() {
            commands[index as int].keyword
        } else {
            "?"@
        },
        _ => Some(text) == plain_text(value, commands),
    }
}

/// Each of the items is written by the text at its place.
pub open spec fn all_written(
    items: Seq<FyfthValue>,
    commands: Seq<FyfthCommandSpec>,
    parts: Seq<Seq<char>>,
) -> bool {
    parts.len() == items.len() && forall|i: int|
        0 <= i < items.len() ==> writes(items[i], commands, #[trigger] parts[i])
}

/// What is joined of the first texts does not change when a text is added
/// behind them.
pub proof fn lemma_joined_push(
    parts: Seq<Seq<char>>,
    added: Seq<char>,
    count: nat,
    separator: Seq<char>,
)
    requires
        count <= parts.len(),
    ensures
        joined(parts.push(added), count, separator) == joined(parts, count, separator),
    decreases count,
{
    if count > 1 {
        lemma_joined_push(parts, added, (count - 1) as nat, separator);
    }
}

/// Adds the handle of an object to `output`.
pub fn put_handle(output: &mut String, entity: u64)
    ensures
        final(output)@ == old(output)@ + handle_text(entity),
        extends(old(output)@, final(output)@),
{
    match entity_text(entity) {
        Some(written) => put(output, written.as_str()),
        None => {
            push_decimal(output, entity);
            assert(output@.subrange(0, old(output)@.len() as int) =~= old(output)@);
        },
    }
}

/// Adds an object to `output`: its handle, and its name if it has one, in
/// round brackets.
fn put_entity<H: FyfthHost>(output: &mut String, world: &H, entity: u64)
    ensures
        exists|name: Option<Seq<char>>|
            final(output)@ == old(output)@ + #[trigger] object_text(entity, name),
        extends(old(output)@, final(output)@),
{
    let ghost start = output@;
    put(output, "(");
    put_handle(output, entity);
    match world.entity_name(entity) {
        Some(name) => {
            put(output, " - \"");
            put(output, name.as_str());
            put(output, "\")");
            assert(output@ =~= start + object_text(entity, Some(name@)));
            proof {
                lemma_written_extends(start, object_text(entity, Some(name@)));
            }
        },
        None => {
            put(output, ")");
            assert(output@ =~= start + object_text(entity, None));
            proof {
                lemma_written_extends(start, object_text(entity, None));
            }
        },
    }
}

/// Adds a tuple of numbers to `output`: `label`, then the numbers in round
/// brackets with a blank between two.
#[verifier::loop_isolation(false)]
fn put_tuple<H: FyfthHost>(output: &mut String, world: &H, label: &str, numbers: &Vec<FyfthNum>)
    ensures
        exists|parts: Seq<Seq<char>>|
            parts.len() == numbers.len() && final(output)@ == old(output)@ + #[trigger] tuple_text(
                label@,
                parts,
            ),
        extends(old(output)@, final(output)@),
{
    let ghost start = output@;
    let ghost mut parts: Seq<Seq<char>> = Seq::empty();
    put(output, label);
    put(output, "(");
    assert(output@ =~= start + label@ + "("@ + joined(parts, 0, " "@));
    let mut at: usize = 0;
    while at < numbers.len()
        invariant
            at <= numbers.len(),
            parts.len() == at,
            output@ == start + label@ + "("@ + joined(parts, at as nat, " "@),
        decreases numbers.len() - at,
    {
        if at > 0 {
            put(output, " ");
        }
        let text = world.format_number(numbers[at]);
        put(output, text.as_str());
        proof {
            let earlier = parts;
            parts = earlier.push(text@);
            lemma_joined_push(earlier, text@, at as nat, " "@);
            assert(output@ =~= start + label@ + "("@ + joined(parts, (at + 1) as nat, " "@));
        }
        at += 1;
    }
    put(output, ")");
    assert(output@ =~= start + tuple_text(label@, parts));
    proof {
        lemma_written_extends(start, tuple_text(label@, parts));
    }
}

/// Adds the items of a sequence to `output`, `separator` between two.
#[verifier::loop_isolation(false)]
pub fn put_items<H: FyfthHost>(
    items: &Vec<FyfthVariant>,
    output: &mut String,
    world: &H,
    lang: &FyfthLanguageExtension,
    separator: &str,
)
    ensures
        exists|parts: Seq<Seq<char>>|
            #![trigger all_written(views(items@), lang.commands(), parts)]
            all_written(views(items@), lang.commands(), parts) && final(output)@ == old(output)@
                + joined(parts, parts.len(), separator@),
        plain_items(views(items@), items.len() as nat, lang.commands(), separator@) matches Some(
            text,
        ) ==> final(output)@ == old(output)@ + text,
        extends(old(output)@, final(output)@),
    decreases items,
{
    let ghost start = output@;
    let ghost shown = views(items@);
    let ghost commands = lang.commands();
    let ghost mut parts: Seq<Seq<char>> = Seq::empty();
    proof {
        assert(start + Seq::<char>::empty() =~= start);
    }
    let mut at: usize = 0;
    while at < items.len()
        invariant
            at <= items.len(),
            parts.len() == at,
            forall|i: int| 0 <= i < at ==> writes(shown[i], commands, #[trigger] parts[i]),
            output@ == start + joined(parts, at as nat, separator@),
            plain_items(shown, at as nat, commands, separator@) matches Some(text) ==> output@
                == start + text,
        decreases items.len() - at,
    {
        let ghost before = output@;
        if at > 0 {
            put(output, separator);
        }
        let ghost middle = output@;
        proof {
            vstd::std_specs::vec::axiom_vec_index_decreases(*items, at as int);
        }
        items[at].pretty_print(output, world, lang);
        proof {
            let part = choose|text: Seq<char>|
                output@ == middle + text && #[trigger] writes(shown[at as int], commands, text);
            let earlier = parts;
            parts = earlier.push(part);
            lemma_joined_push(earlier, part, at as nat, separator@);
            assert(output@ =~= start + joined(parts, (at + 1) as nat, separator@));
            assert forall|i: int| 0 <= i < at + 1 implies writes(
                shown[i],
                commands,
                #[trigger] parts[i],
            ) by {
                if i < at {
                    assert(parts[i] == earlier[i]);
                }
            }
            let so_far = plain_items(shown, at as nat, commands, separator@);
            let item = plain_text(shown[at as int], commands);
            if so_far is Some && item is Some {
                if at == 0 {
                    assert(so_far->0 =~= Seq::<char>::empty());
                    assert(output@ =~= start + item->0);
                } else {
                    assert(output@ =~= start + (so_far->0 + separator@ + item->0));
                }
            }
        }
        at += 1;
    }
    assert(all_written(shown, commands, parts));
    proof {
        lemma_written_extends(start, joined(parts, parts.len(), separator@));
    }
}

/// The values that are written in one way, whatever the host and the
/// vocabulary: `nil`, truth values, texts and control words.
pub open spec fn is_simple(value: FyfthValue) -> bool {
    !(value is Num || value is Iter || value is Entity || value is Vec2 || value is Vec3
        || value is Quat || value is Component || value is LangFunc)
}

/// Adds a value that is written in one way to `output`.
fn put_simple(value: &FyfthVariant, output: &mut String, Ghost(commands): Ghost<Seq<FyfthCommandSpec>>)
    requires
        is_simple(value@),
    ensures
        plain_text(value@, commands) matches Some(text) && final(output)@ == old(output)@ + text,
{
    match value {
        FyfthVariant::Nil => put(output, "nil"),
        FyfthVariant::Bool(b) => {
            if *b {
                put(output, "true")
            } else {
                put(output, "false")
            }
        },
        FyfthVariant::Literal(text) => {
            put(output, "\"");
            put(output, text.as_str());
            put(output, "\"");
            assert(output@ =~= old(output)@ + ("\""@ + text@ + "\""@));
        },
        FyfthVariant::FnIter => put(output, "iter"),
        FyfthVariant::Macro => put(output, "macro"),
        FyfthVariant::LineEnd => put(output, ";"),
        FyfthVariant::FnQueue => put(output, "queue"),
        FyfthVariant::FnDup => put(output, "dup"),
        FyfthVariant::FnSwap => put(output, "swap"),
        FyfthVariant::FnSwapN => put(output, "swap_n"),
        FyfthVariant::FnRotRN => put(output, "rotr"),
        FyfthVariant::FnRotLN => put(output, "rotl"),
        FyfthVariant::FnPush => put(output, "push"),
        _ => {},
    }
}

/// Adds the keyword of the command with the index `index` to `output`; a
/// question mark if the index names no command.
fn put_command(index: u32, output: &mut String, lang: &FyfthLanguageExtension)
    ensures
        writes(FyfthValue::LangFunc(index), lang.commands(), final(output)@.skip(old(output)@.len() as int)),
        final(output)@ == old(output)@ + final(output)@.skip(old(output)@.len() as int),
        plain_text(FyfthValue::LangFunc(index), lang.commands()) matches Some(text) ==> final(output)@ == old(output)@ + text,
{
    if (index as usize) < lang.command_count() {
        let keyword = lang.command(index as usize).keyword.as_str();
        put(output, keyword);
        assert(output@.skip(old(output)@.len() as int) =~= keyword@);
    } else {
        put(output, "?");
        assert(output@.skip(old(output)@.len() as int) =~= "?"@);
    }
}

/// Adds a tuple of numbers to `output`, as one way to write `value`.
fn put_numbers<H: FyfthHost>(
    value: &FyfthVariant,
    output: &mut String,
    world: &H,
    Ghost(commands): Ghost<Seq<FyfthCommandSpec>>,
)
    requires
        value@ is Vec2 || value@ is Vec3 || value@ is Quat,
    ensures
        exists|text: Seq<char>|
            final(output)@ == old(output)@ + text && #[trigger] writes(value@, commands, text),
{
    let ghost start = output@;
    match value {
        FyfthVariant::Vec2(x, y) => {
            let numbers = vec![*x, *y];
            put_tuple(output, world, "vec2", &numbers);
            proof {
                let parts = choose|parts: Seq<Seq<char>>|
                    parts.len() == numbers.len() && output@ == start + #[trigger] tuple_text(
                        "vec2"@,
                        parts,
                    );
                assert(writes(value@, commands, tuple_text("vec2"@, parts)));
            }
        },
        FyfthVariant::Vec3(x, y, z) => {
            let numbers = vec![*x, *y, *z];
            put_tuple(output, world, "vec3", &numbers);
            proof {
                let parts = choose|parts: Seq<Seq<char>>|
                    parts.len() == numbers.len() && output@ == start + #[trigger] tuple_text(
                        "vec3"@,
                        parts,
                    );
                assert(writes(value@, commands, tuple_text("vec3"@, parts)));
            }
        },
        FyfthVariant::Quat(x, y, z, w) => {
            let numbers = vec![*x, *y, *z, *w];
            put_tuple(output, world, "quat", &numbers);
            proof {
                let parts = choose|parts: Seq<Seq<char>>|
                    parts.len() == numbers.len() && output@ == start + #[trigger] tuple_text(
                        "quat"@,
                        parts,
                    );
                assert(writes(value@, commands, tuple_text("quat"@, parts)));
            }
        },
        _ => {},
    }
}

impl FyfthVariant {
    /// Adds `self`, as it is written for the user, to `output`.
    pub fn pretty_print<H: FyfthHost>(
        &self,
        output: &mut String,
        world: &H,
        lang: &FyfthLanguageExtension,
    )
        ensures
            exists|text: Seq<char>|
                final(output)@ == old(output)@ + text && #[trigger] writes(
                    self@,
                    lang.commands(),
                    text,
                ),
            plain_text(self@, lang.commands()) matches Some(text) ==> final(output)@ == old(output)@ + text,
            extends(old(output)@, final(output)@),
        decreases self,
    {
        let ghost start = output@;
        let ghost commands = lang.commands();
        match self {
            FyfthVariant::Num(number) => {
                let text = world.format_number(*number);
                put(output, text.as_str());
                assert(writes(self@, commands, text@));
            },
            FyfthVariant::Component(component) => {
                let text = world.component_text(*component);
                put(output, text.as_str());
                assert(writes(self@, commands, text@));
            },
            FyfthVariant::Entity(entity) => {
                put_entity(output, world, *entity);
                proof {
                    let name = choose|name: Option<Seq<char>>|
                        output@ == start + #[trigger] object_text(*entity, name);
                    lemma_object_written(*entity, name, commands);
                }
            },
            FyfthVariant::Iter(items) => {
                proof {
                    lemma_iter_view(*items);
                }
                let ghost shown = views(items@);
                put(output, "[");
                push_decimal(output, items.len() as u64);
                put(output, " items; ");
                let ghost third = output@;
                let ghost head = "["@ + decimal(items.len() as nat) + " items; "@;
                put_items(items, output, world, lang, ", ");
                let ghost fourth = output@;
                put(output, "]");
                proof {
                    assert(third =~= start + head);
                    let parts = choose|parts: Seq<Seq<char>>|
                        #![trigger all_written(shown, commands, parts)]
                        all_written(shown, commands, parts) && fourth == third + joined(
                            parts,
                            parts.len(),
                            ", "@,
                        );
                    assert(output@ =~= start + sequence_text(parts));
                    assert(writes(FyfthValue::Iter(shown), commands, sequence_text(parts)));
                    let inner = plain_items(shown, shown.len(), commands, ", "@);
                    if inner is Some {
                        assert(output@ =~= start + (head + inner->0 + "]"@));
                    }
                }
            },
            FyfthVariant::Vec2(_, _) | FyfthVariant::Vec3(_, _, _) | FyfthVariant::Quat(_, _, _, _) => {
                put_numbers(self, output, world, Ghost(commands));
            },
            FyfthVariant::LangFunc(index) => {
                put_command(*index, output, lang);
            },
            _ => {
                put_simple(self, output, Ghost(commands));
                assert(writes(self@, commands, plain_text(self@, commands)->0));
            },
        }
        proof {
            let text = choose|text: Seq<char>|
                output@ == start + text && #[trigger] writes(self@, commands, text);
            lemma_written_extends(start, text);
        }
    }
}

/// An object is written by [`object_text`], with a name or without.
pub proof fn lemma_object_written(bits: u64, name: Option<Seq<char>>, commands: Seq<FyfthCommandSpec>)
    ensures
        writes(FyfthValue::Entity(bits), commands, object_text(bits, name)),
{
    let text = object_text(bits, name);
    let value = FyfthValue::Entity(bits);
    assert(exists|other: Option<Seq<char>>| text == #[trigger] object_text(bits, other));
    assert(value->Entity_0 == bits);
    assert(writes(value, commands, text) == (exists|other: Option<Seq<char>>|
        text == #[trigger] object_text(bits, other)));
}

/// What is written extends the output.
pub proof fn lemma_written_extends(before: Seq<char>, text: Seq<char>)
    ensures
        extends(before, before + text),
{
    assert((before + text).subrange(0, before.len() as int) =~= before);
}

} // verus!

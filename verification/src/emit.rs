use vstd::prelude::*;
use vstd::string::{StrSliceExecFns, StringExecFns};

use crate::dispatch::{Arm, ArmModel, Key, KeyModel};
use crate::expand::{
    all_fields_ok, expand, field_ok, generated_model_of, wf_generated, ExpandError,
    ExpandErrorModel, Expansion, GeneratedImpl, GeneratedModel, StructDef,
};
use crate::options::{
    field_policy_spec, struct_options_spec, PolicyModel, StructOptionsModel,
};

verus! {

/// Relies on `String::push`: appends exactly the one character.
#[verifier::external_body]
fn push_char(out: &mut String, c: char)
    ensures
        final(out)@ == old(out)@ + seq![c],
{
    out.push(c);
}

/// The UTF-8 encoding of a character: what `char::encode_utf8` yields, a
/// function of the character alone.
pub uninterp spec fn utf8_of(c: char) -> Seq<u8>;

/// Relies on `char::encode_utf8`: the UTF-8 bytes of the character, one to
/// four of them.
#[verifier::external_body]
fn char_utf8(c: char) -> (v: Vec<u8>)
    ensures
        v@ == utf8_of(c),
        1 <= v@.len() <= 4,
{
    let mut buf = [0u8; 4];
    c.encode_utf8(&mut buf).as_bytes().to_vec()
}

/// The uppercase hexadecimal digit of a value below sixteen.
pub open spec fn hex_char(n: int) -> char {
    if n == 0 {
        '0'
    } else if n == 1 {
        '1'
    } else if n == 2 {
        '2'
    } else if n == 3 {
        '3'
    } else if n == 4 {
        '4'
    } else if n == 5 {
        '5'
    } else if n == 6 {
        '6'
    } else if n == 7 {
        '7'
    } else if n == 8 {
        '8'
    } else if n == 9 {
        '9'
    } else if n == 10 {
        'A'
    } else if n == 11 {
        'B'
    } else if n == 12 {
        'C'
    } else if n == 13 {
        'D'
    } else if n == 14 {
        'E'
    } else {
        'F'
    }
}

fn hex_digit(n: u8) -> (c: char)
    requires
        n < 16,
    ensures
        c == hex_char(n as int),
{
    if n == 0 {
        '0'
    } else if n == 1 {
        '1'
    } else if n == 2 {
        '2'
    } else if n == 3 {
        '3'
    } else if n == 4 {
        '4'
    } else if n == 5 {
        '5'
    } else if n == 6 {
        '6'
    } else if n == 7 {
        '7'
    } else if n == 8 {
        '8'
    } else if n == 9 {
        '9'
    } else if n == 10 {
        'A'
    } else if n == 11 {
        'B'
    } else if n == 12 {
        'C'
    } else if n == 13 {
        'D'
    } else if n == 14 {
        'E'
    } else {
        'F'
    }
}

/// The `\xNN` escape of one byte, uppercase.
pub open spec fn byte_hex(b: u8) -> Seq<char> {
    seq!['\\', 'x', hex_char(b as int / 16), hex_char(b as int % 16)]
}

fn push_byte_hex(out: &mut String, b: u8)
    ensures
        final(out)@ == old(out)@ + byte_hex(b),
{
    push_char(out, '\\');
    push_char(out, 'x');
    push_char(out, hex_digit(b / 16));
    push_char(out, hex_digit(b % 16));
    proof {
        assert(out@ =~= old(out)@ + byte_hex(b));
    }
}

/// The `\xNN` escapes of a byte sequence, in order.
pub open spec fn bytes_hex(bs: Seq<u8>) -> Seq<char>
    decreases bs.len(),
{
    if bs.len() == 0 {
        Seq::empty()
    } else {
        byte_hex(bs[0]) + bytes_hex(bs.drop_first())
    }
}

proof fn lemma_bytes_hex_push(bs: Seq<u8>, b: u8)
    ensures
        bytes_hex(bs.push(b)) == bytes_hex(bs) + byte_hex(b),
    decreases bs.len(),
{
    if bs.len() == 0 {
        assert(bs.push(b)[0] == b);
        assert(bs.push(b).drop_first() =~= Seq::<u8>::empty());
        assert(bytes_hex(bs.push(b)) == byte_hex(b) + bytes_hex(Seq::<u8>::empty()));
        assert(bytes_hex(Seq::<u8>::empty()) == Seq::<char>::empty());
        assert(bs =~= Seq::<u8>::empty());
        assert(bytes_hex(bs.push(b)) =~= bytes_hex(bs) + byte_hex(b));
    } else {
        lemma_bytes_hex_push(bs.drop_first(), b);
        assert(bs.push(b)[0] == bs[0]);
        assert(bs.push(b).drop_first() =~= bs.drop_first().push(b));
        assert(bytes_hex(bs.push(b)) == byte_hex(bs[0]) + bytes_hex(bs.drop_first().push(b)));
        assert(byte_hex(bs[0]) + (bytes_hex(bs.drop_first()) + byte_hex(b)) =~= (byte_hex(bs[0])
            + bytes_hex(bs.drop_first())) + byte_hex(b));
        assert(bytes_hex(bs.push(b)) =~= bytes_hex(bs) + byte_hex(b));
    }
}

/// How one character stands inside a generated byte-string literal: the
/// usual short escapes, printable ASCII as itself, anything else as the
/// `\xNN` escapes of its UTF-8 bytes.
pub open spec fn escaped_char(c: char) -> Seq<char> {
    if c == '\t' {
        seq!['\\', 't']
    } else if c == '\n' {
        seq!['\\', 'n']
    } else if c == '\r' {
        seq!['\\', 'r']
    } else if c == '"' {
        seq!['\\', '"']
    } else if c == '\\' {
        seq!['\\', '\\']
    } else if 0x20 <= c as int && c as int <= 0x7e {
        seq![c]
    } else {
        bytes_hex(utf8_of(c))
    }
}

/// The escaped body of a generated byte-string literal.
pub open spec fn escaped_text(s: Seq<char>) -> Seq<char>
    decreases s.len(),
{
    if s.len() == 0 {
        Seq::empty()
    } else {
        escaped_char(s[0]) + escaped_text(s.drop_first())
    }
}

proof fn lemma_escaped_text_push(s: Seq<char>, c: char)
    ensures
        escaped_text(s.push(c)) == escaped_text(s) + escaped_char(c),
    decreases s.len(),
{
    if s.len() == 0 {
        assert(s.push(c)[0] == c);
        assert(s.push(c).drop_first() =~= Seq::<char>::empty());
        assert(escaped_text(s.push(c)) == escaped_char(c) + escaped_text(Seq::<char>::empty()));
        assert(escaped_text(Seq::<char>::empty()) == Seq::<char>::empty());
        assert(s =~= Seq::<char>::empty());
        assert(escaped_text(s.push(c)) =~= escaped_text(s) + escaped_char(c));
    } else {
        lemma_escaped_text_push(s.drop_first(), c);
        assert(s.push(c)[0] == s[0]);
        assert(s.push(c).drop_first() =~= s.drop_first().push(c));
        assert(escaped_text(s.push(c)) == escaped_char(s[0]) + escaped_text(
            s.drop_first().push(c),
        ));
        assert(escaped_char(s[0]) + (escaped_text(s.drop_first()) + escaped_char(c)) =~= (
        escaped_char(s[0]) + escaped_text(s.drop_first())) + escaped_char(c));
        assert(escaped_text(s.push(c)) =~= escaped_text(s) + escaped_char(c));
    }
}

/// A whole generated byte-string literal for a key name.
pub open spec fn byte_string_lit(s: Seq<char>) -> Seq<char> {
    "b\""@ + escaped_text(s) + "\""@
}

fn push_escaped(out: &mut String, s: &String)
    ensures
        final(out)@ == old(out)@ + escaped_text(s@),
{
    let n = s.as_str().unicode_len();
    let mut i: usize = 0;
    proof {
        assert(s@.take(0) =~= Seq::<char>::empty());
        assert(out@ =~= old(out)@ + escaped_text(s@.take(0)));
    }
    while i < n
        invariant
            i <= n,
            n == s@.len(),
            out@ == old(out)@ + escaped_text(s@.take(i as int)),
        decreases n - i,
    {
        let c = s.as_str().get_char(i);
        if c == '\t' {
            push_char(out, '\\');
            push_char(out, 't');
        } else if c == '\n' {
            push_char(out, '\\');
            push_char(out, 'n');
        } else if c == '\r' {
            push_char(out, '\\');
            push_char(out, 'r');
        } else if c == '"' {
            push_char(out, '\\');
            push_char(out, '"');
        } else if c == '\\' {
            push_char(out, '\\');
            push_char(out, '\\');
        } else {
            let u = c as u32;
            if 0x20 <= u && u <= 0x7e {
                push_char(out, c);
            } else {
                let bs = char_utf8(c);
                let m = bs.len();
                let mut j: usize = 0;
                let ghost pre = out@;
                proof {
                    assert(bs@.take(0) =~= Seq::<u8>::empty());
                    assert(out@ =~= pre + bytes_hex(bs@.take(0)));
                }
                while j < m
                    invariant
                        j <= m,
                        m == bs@.len(),
                        bs@ == utf8_of(c),
                        out@ == pre + bytes_hex(bs@.take(j as int)),
                    decreases m - j,
                {
                    push_byte_hex(out, bs[j]);
                    proof {
                        lemma_bytes_hex_push(bs@.take(j as int), bs@[j as int]);
                        assert(bs@.take(j as int).push(bs@[j as int]) =~= bs@.take(
                            j as int + 1,
                        ));
                    }
                    j = j + 1;
                }
                proof {
                    assert(bs@.take(m as int) =~= bs@);
                }
            }
        }
        proof {
            lemma_escaped_text_push(s@.take(i as int), s@[i as int]);
            assert(s@.take(i as int).push(s@[i as int]) =~= s@.take(i as int + 1));
            assert(out@ =~= old(out)@ + escaped_text(s@.take(i as int + 1)));
        }
        i = i + 1;
    }
    proof {
        assert(s@.take(n as int) =~= s@);
    }
}

fn push_byte_string(out: &mut String, s: &String)
    ensures
        final(out)@ == old(out)@ + byte_string_lit(s@),
{
    out.append("b\"");
    push_escaped(out, s);
    out.append("\"");
    proof {
        assert(out@ =~= old(out)@ + byte_string_lit(s@));
    }
}

/// The decimal digit of a value below ten.
pub open spec fn dec_digit(n: int) -> char {
    if n == 0 {
        '0'
    } else if n == 1 {
        '1'
    } else if n == 2 {
        '2'
    } else if n == 3 {
        '3'
    } else if n == 4 {
        '4'
    } else if n == 5 {
        '5'
    } else if n == 6 {
        '6'
    } else if n == 7 {
        '7'
    } else if n == 8 {
        '8'
    } else {
        '9'
    }
}

/// The decimal text of a non-negative value, most significant digit first,
/// no leading zeros (a lone zero for zero).
pub open spec fn dec_text(n: int) -> Seq<char>
    decreases n,
{
    if n < 10 {
        seq![dec_digit(n)]
    } else {
        dec_text(n / 10) + seq![dec_digit(n % 10)]
    }
}

fn dec_digit_exec(n: u64) -> (c: char)
    requires
        n < 10,
    ensures
        c == dec_digit(n as int),
{
    if n == 0 {
        '0'
    } else if n == 1 {
        '1'
    } else if n == 2 {
        '2'
    } else if n == 3 {
        '3'
    } else if n == 4 {
        '4'
    } else if n == 5 {
        '5'
    } else if n == 6 {
        '6'
    } else if n == 7 {
        '7'
    } else if n == 8 {
        '8'
    } else {
        '9'
    }
}

fn push_dec(out: &mut String, n: u64)
    ensures
        final(out)@ == old(out)@ + dec_text(n as int),
    decreases n,
{
    if n >= 10 {
        push_dec(out, n / 10);
    }
    push_char(out, dec_digit_exec(n % 10));
    proof {
        assert(out@ =~= old(out)@ + dec_text(n as int));
    }
}

/// How a generated arm reaches its field: by the declared name, or by the
/// 0-based tuple position for an unnamed field.
pub open spec fn accessor_text(g: GeneratedModel, f: int) -> Seq<char> {
    match g.field_names[f] {
        Some(n) => n,
        None => dec_text(f),
    }
}

fn push_accessor(out: &mut String, g: &GeneratedImpl, f: usize)
    requires
        f < g@.field_names.len(),
    ensures
        final(out)@ == old(out)@ + accessor_text(g@, f as int),
{
    proof {
        assert(g@.field_names[f as int] == match g.field_names@[f as int] {
            Some(s) => Some(s@),
            None => None,
        });
    }
    match &g.field_names[f] {
        Some(n) => {
            out.append(n.as_str());
        },
        None => {
            push_dec(out, f as u64);
        },
    }
}

/// The text of one dispatch arm, write or read, string or integer key.
pub open spec fn arm_text(g: GeneratedModel, a: ArmModel, write: bool) -> Seq<char> {
    match a.key {
        KeyModel::Name(k) => {
            if write {
                "                Value::String(key) if key.as_bytes() == "@ + byte_string_lit(k)
                    + " => { this."@ + accessor_text(g, a.field)
                    + " = FromLua::from_lua(val, ctx)?; Ok(()) },\n"@
            } else {
                "                Value::String(key) if key.as_bytes() == "@ + byte_string_lit(k)
                    + " => { Ok(ToLua::to_lua(this."@ + accessor_text(g, a.field)
                    + ".clone(), ctx)?) },\n"@
            }
        },
        KeyModel::Index(n) => {
            if write {
                "                Value::Integer(key) if key == "@ + dec_text(n)
                    + " as LuaInteger => { this."@ + accessor_text(g, a.field)
                    + " = FromLua::from_lua(val, ctx)?; Ok(()) },\n"@
            } else {
                "                Value::Integer(key) if key == "@ + dec_text(n)
                    + " as LuaInteger => { Ok(ToLua::to_lua(this."@ + accessor_text(g, a.field)
                    + ".clone(), ctx)?) },\n"@
            }
        },
    }
}

fn push_arm(out: &mut String, g: &GeneratedImpl, arm: &Arm, write: bool)
    requires
        arm.field < g@.field_names.len(),
    ensures
        final(out)@ == old(out)@ + arm_text(g@, arm@, write),
{
    match &arm.key {
        Key::Name(k) => {
            out.append("                Value::String(key) if key.as_bytes() == ");
            push_byte_string(out, k);
            if write {
                out.append(" => { this.");
                push_accessor(out, g, arm.field);
                out.append(" = FromLua::from_lua(val, ctx)?; Ok(()) },\n");
            } else {
                out.append(" => { Ok(ToLua::to_lua(this.");
                push_accessor(out, g, arm.field);
                out.append(".clone(), ctx)?) },\n");
            }
        },
        Key::Index(n) => {
            out.append("                Value::Integer(key) if key == ");
            push_dec(out, *n);
            if write {
                out.append(" as LuaInteger => { this.");
                push_accessor(out, g, arm.field);
                out.append(" = FromLua::from_lua(val, ctx)?; Ok(()) },\n");
            } else {
                out.append(" as LuaInteger => { Ok(ToLua::to_lua(this.");
                push_accessor(out, g, arm.field);
                out.append(".clone(), ctx)?) },\n");
            }
        },
    }
    proof {
        assert(out@ =~= old(out)@ + arm_text(g@, arm@, write));
    }
}

/// The text of the first `n` arms of one direction's table, in order.
pub open spec fn arms_text(g: GeneratedModel, arms: Seq<ArmModel>, n: int, write: bool) -> Seq<
    char,
>
    decreases n,
{
    if n <= 0 {
        Seq::empty()
    } else {
        arms_text(g, arms, n - 1, write) + arm_text(g, arms[n - 1], write)
    }
}

fn push_arms(out: &mut String, g: &GeneratedImpl, write: bool)
    requires
        wf_generated(g@),
    ensures
        final(out)@ == old(out)@ + (if write {
            arms_text(g@, g@.write_arms, g@.write_arms.len() as int, true)
        } else {
            arms_text(g@, g@.read_arms, g@.read_arms.len() as int, false)
        }),
{
    let table = if write {
        &g.write_table
    } else {
        &g.read_table
    };
    let ghost tm = if write {
        g@.write_arms
    } else {
        g@.read_arms
    };
    let n = table.arms.len();
    let mut i: usize = 0;
    proof {
        assert(out@ =~= old(out)@ + arms_text(g@, tm, 0, write));
    }
    while i < n
        invariant
            i <= n,
            wf_generated(g@),
            n == table.arms.len(),
            table == if write {
                &g.write_table
            } else {
                &g.read_table
            },
            tm == if write {
                g@.write_arms
            } else {
                g@.read_arms
            },
            tm.len() == n,
            forall|k: int| 0 <= k < n ==> tm[k] == table.arms@[k]@,
            out@ == old(out)@ + arms_text(g@, tm, i as int, write),
        decreases n - i,
    {
        let arm = &table.arms[i];
        proof {
            assert(tm[i as int].field == arm@.field);
            assert(0 <= tm[i as int].field < g@.field_names.len());
        }
        push_arm(out, g, arm, write);
        i = i + 1;
    }
}

/// Everything of the generated implementation before the read arms.
pub open spec fn header_text(g: GeneratedModel) -> Seq<char> {
    "impl "@ + g.namespace_root + "::rlua::UserData for "@ + g.struct_name
        + " {\n    fn add_methods<'lua, M: "@ + g.namespace_root
        + "::rlua::UserDataMethods<'lua, Self>>(methods: &mut M) {\n        use "@
        + g.namespace_root
        + "::rlua::{ToLua, FromLua, MetaMethod, Error, Value, Integer as LuaInteger};\n        methods.add_meta_method(MetaMethod::Index, |ctx, this, key: Value| -> Result<Value, Error> {\n            match key {\n"@
}

/// Everything between the read arms and the write arms: the read fallback
/// arm and the opening of the write dispatch.
pub open spec fn middle_text() -> Seq<char> {
    "                _ => Err(Error::RuntimeError(format!(\"unknown key `{:?}`\", key)))\n            }\n        });\n        methods.add_meta_method_mut(MetaMethod::NewIndex, |ctx, this, (key, val): (Value, Value)| -> Result<(), Error> {\n            match key {\n"@
}

/// Everything after the write arms: the write fallback arm and the closing
/// braces.
pub open spec fn footer_text() -> Seq<char> {
    "                _ => Err(Error::RuntimeError(format!(\"unknown key `{:?}`\", key)))\n            }\n        });\n    }\n}\n"@
}

/// The whole generated implementation as text.
pub open spec fn render_spec(g: GeneratedModel) -> Seq<char> {
    header_text(g) + arms_text(g, g.read_arms, g.read_arms.len() as int, false) + middle_text()
        + arms_text(g, g.write_arms, g.write_arms.len() as int, true) + footer_text()
}

/// Renders one successful expansion into the generated implementation:
/// exactly the text `render_spec` assembles from the two tables, arm for
/// arm in table order.
pub fn render(g: &GeneratedImpl) -> (out: String)
    requires
        wf_generated(g@),
    ensures
        out@ == render_spec(g@),
{
    let mut out = String::new();
    out.append("impl ");
    out.append(g.namespace_root.as_str());
    out.append("::rlua::UserData for ");
    out.append(g.struct_name.as_str());
    out.append(" {\n    fn add_methods<'lua, M: ");
    out.append(g.namespace_root.as_str());
    out.append("::rlua::UserDataMethods<'lua, Self>>(methods: &mut M) {\n        use ");
    out.append(g.namespace_root.as_str());
    out.append(
        "::rlua::{ToLua, FromLua, MetaMethod, Error, Value, Integer as LuaInteger};\n        methods.add_meta_method(MetaMethod::Index, |ctx, this, key: Value| -> Result<Value, Error> {\n            match key {\n",
    );
    proof {
        assert(out@ =~= header_text(g@));
    }
    push_arms(&mut out, g, false);
    out.append(
        "                _ => Err(Error::RuntimeError(format!(\"unknown key `{:?}`\", key)))\n            }\n        });\n        methods.add_meta_method_mut(MetaMethod::NewIndex, |ctx, this, (key, val): (Value, Value)| -> Result<(), Error> {\n            match key {\n",
    );
    push_arms(&mut out, g, true);
    out.append(
        "                _ => Err(Error::RuntimeError(format!(\"unknown key `{:?}`\", key)))\n            }\n        });\n    }\n}\n",
    );
    proof {
        assert(out@ =~= render_spec(g@));
    }
    out
}

/// Runs one whole expansion and renders its output: `None` for a structure
/// with no fields, the generated implementation text otherwise, or the first
/// diagnostic. The text is exactly `render_spec` of the one implementation
/// the structure determines.
pub fn generate(d: &StructDef) -> (r: Result<Option<String>, ExpandError>)
    ensures
        match r {
            Ok(out) => match out {
                None => struct_options_spec(d@.annotation) is Ok && d@.fields.len() == 0,
                Some(s) => d@.fields.len() > 0 && all_fields_ok(d@.fields)
                    && struct_options_spec(d@.annotation) is Ok && s@ == render_spec(
                    generated_model_of(d@),
                ),
            },
            Err(e) => match e@ {
                ExpandErrorModel::Structure(ae) => struct_options_spec(d@.annotation) == Err::<
                    StructOptionsModel,
                    _,
                >(ae),
                ExpandErrorModel::Field { field, error } => struct_options_spec(d@.annotation)
                    is Ok && 0 <= field < d@.fields.len() && field_policy_spec(
                    d@.fields[field].annotation,
                ) == Err::<PolicyModel, _>(error) && (forall|k: int|
                    0 <= k < field ==> field_ok(d@.fields[k])),
            },
        },
{
    match expand(d) {
        Ok(Expansion::Skipped) => Ok(None),
        Ok(Expansion::Generated(g)) => {
            proof {
                assert(g@ == generated_model_of(d@));
            }
            Ok(Some(render(&g)))
        },
        Err(e) => Err(e),
    }
}

} // verus!

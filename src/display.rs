use vstd::prelude::*;

use crate::text::{decimal, push_decimal, push_str};
use crate::ty::{
    fields_of, lemma_fields_of_index, lemma_fields_of_len, lemma_named_of_index, lemma_named_of_len,
    lemma_shapes_of_index, lemma_shapes_of_len, named_of, shapes_of, FloatTy, InferTy, IntTy, Shape,
    StructTyField, StructTyKind, Ty, TyKind, UIntTy,
};
use crate::tycx::TyContext;

verus! {

broadcast use vstd::std_specs::vec::group_vec_axioms;

pub open spec fn int_name(w: IntTy) -> Seq<char> {
    match w {
        IntTy::I8 => "i8"@,
        IntTy::I16 => "i16"@,
        IntTy::I32 => "i32"@,
        IntTy::I64 => "i64"@,
        IntTy::Int => "int"@,
    }
}

pub open spec fn uint_name(w: UIntTy) -> Seq<char> {
    match w {
        UIntTy::U8 => "u8"@,
        UIntTy::U16 => "u16"@,
        UIntTy::U32 => "u32"@,
        UIntTy::U64 => "u64"@,
        UIntTy::UInt => "uint"@,
    }
}

pub open spec fn float_name(w: FloatTy) -> Seq<char> {
    match w {
        FloatTy::F16 => "f16"@,
        FloatTy::F32 => "f32"@,
        FloatTy::F64 => "f64"@,
        FloatTy::Float => "float"@,
    }
}

pub open spec fn mut_word(m: bool) -> Seq<char> {
    if m {
        "mut "@
    } else {
        ""@
    }
}

pub open spec fn struct_word(k: StructTyKind) -> Seq<char> {
    match k {
        StructTyKind::Struct => "struct"@,
        StructTyKind::PackedStruct => "struct(packed)"@,
        StructTyKind::Union => "union"@,
    }
}

/// How a type is written in the source language.
pub open spec fn shape_text(t: Shape) -> Seq<char>
    decreases t, 0nat,
{
    match t {
        Shape::Never => "never"@,
        Shape::Unit => "()"@,
        Shape::Bool => "bool"@,
        Shape::Int(w) => int_name(w),
        Shape::UInt(w) => uint_name(w),
        Shape::Float(w) => float_name(w),
        Shape::Pointer(x, m) => "*"@ + mut_word(m) + shape_text(*x),
        Shape::MultiPointer(x, m) => "[*"@ + mut_word(m) + "]"@ + shape_text(*x),
        Shape::Fn(ps, r, va) => "fn("@ + list_text(ps) + (if va {
            ", .."@
        } else {
            ""@
        }) + ") -> "@ + shape_text(*r),
        Shape::Array(x, n) => "["@ + decimal(n as nat) + "]"@ + shape_text(*x),
        Shape::Slice(x, m) => "[]"@ + mut_word(m) + shape_text(*x),
        Shape::Tuple(es) => "("@ + list_text(es) + ")"@,
        Shape::Struct(name, k, fs) => if name.len() > 0 {
            name
        } else {
            struct_word(k) + " { "@ + fields_text(fs) + " }"@
        },
        Shape::Module(_) => "module"@,
        Shape::Type(x) => "type "@ + shape_text(*x),
        Shape::Var(v) => "?"@ + decimal(v as nat),
        Shape::AnyInt(_) => "{integer}"@,
        Shape::AnyFloat(_) => "{float}"@,
        Shape::PartialStruct(_, fs) => "{ "@ + fields_text(fs) + ", .. }"@,
        Shape::PartialTuple(_, es) => "("@ + list_text(es) + ", ..)"@,
        Shape::Unknown => "unknown"@,
    }
}

/// The types of `s`, separated by commas.
pub open spec fn list_text(s: Seq<Shape>) -> Seq<char>
    decreases s, 1nat,
{
    if s.len() == 0 {
        Seq::empty()
    } else if s.len() == 1 {
        shape_text(s[0])
    } else {
        list_text(s.drop_last()) + ", "@ + shape_text(s.last())
    }
}

/// The fields of `s` as `name: type`, separated by commas.
pub open spec fn fields_text(s: Seq<(Seq<char>, Shape)>) -> Seq<char>
    decreases s, 1nat,
{
    if s.len() == 0 {
        Seq::empty()
    } else if s.len() == 1 {
        s[0].0 + ": "@ + shape_text(s[0].1)
    } else {
        fields_text(s.drop_last()) + ", "@ + s.last().0 + ": "@ + shape_text(s.last().1)
    }
}

/// Appends how `t` is written to `out`.
pub fn write_ty(out: &mut String, t: &TyKind)
    ensures
        final(out)@ == old(out)@ + shape_text(t@),
    decreases t, 0nat,
{
    let ghost start = out@;
    match t {
        TyKind::Never => push_str(out, "never"),
        TyKind::Unit => push_str(out, "()"),
        TyKind::Bool => push_str(out, "bool"),
        TyKind::Int(w) => push_str(
            out,
            match w {
                IntTy::I8 => "i8",
                IntTy::I16 => "i16",
                IntTy::I32 => "i32",
                IntTy::I64 => "i64",
                IntTy::Int => "int",
            },
        ),
        TyKind::UInt(w) => push_str(
            out,
            match w {
                UIntTy::U8 => "u8",
                UIntTy::U16 => "u16",
                UIntTy::U32 => "u32",
                UIntTy::U64 => "u64",
                UIntTy::UInt => "uint",
            },
        ),
        TyKind::Float(w) => push_str(
            out,
            match w {
                FloatTy::F16 => "f16",
                FloatTy::F32 => "f32",
                FloatTy::F64 => "f64",
                FloatTy::Float => "float",
            },
        ),
        TyKind::Pointer(x, m) => {
            push_str(out, "*");
            push_str(out, mut_str(*m));
            write_ty(out, x);
        },
        TyKind::MultiPointer(x, m) => {
            push_str(out, "[*");
            push_str(out, mut_str(*m));
            push_str(out, "]");
            write_ty(out, x);
        },
        TyKind::Fn(f) => {
            push_str(out, "fn(");
            write_list(out, &f.params);
            push_str(
                out,
                if f.variadic {
                    ", .."
                } else {
                    ""
                },
            );
            push_str(out, ") -> ");
            write_ty(out, &f.ret);
        },
        TyKind::Array(x, n) => {
            push_str(out, "[");
            push_decimal(out, *n);
            push_str(out, "]");
            write_ty(out, x);
        },
        TyKind::Slice(x, m) => {
            push_str(out, "[]");
            push_str(out, mut_str(*m));
            write_ty(out, x);
        },
        TyKind::Tuple(es) => {
            push_str(out, "(");
            write_list(out, es);
            push_str(out, ")");
        },
        TyKind::Struct(st) => {
            if !st.name.as_str().is_empty() {
                push_str(out, st.name.as_str());
            } else {
                push_str(
                    out,
                    match st.kind {
                        StructTyKind::Struct => "struct",
                        StructTyKind::PackedStruct => "struct(packed)",
                        StructTyKind::Union => "union",
                    },
                );
                push_str(out, " { ");
                write_fields(out, &st.fields);
                push_str(out, " }");
            }
        },
        TyKind::Module(_) => push_str(out, "module"),
        TyKind::Type(x) => {
            push_str(out, "type ");
            write_ty(out, x);
        },
        TyKind::Var(v) => {
            push_str(out, "?");
            push_decimal(out, v.0);
        },
        TyKind::Infer(_, InferTy::AnyInt) => push_str(out, "{integer}"),
        TyKind::Infer(_, InferTy::AnyFloat) => push_str(out, "{float}"),
        TyKind::Infer(_, InferTy::PartialStruct(p)) => {
            push_str(out, "{ ");
            write_named(out, &p.0);
            push_str(out, ", .. }");
        },
        TyKind::Infer(_, InferTy::PartialTuple(es)) => {
            push_str(out, "(");
            write_list(out, es);
            push_str(out, ", ..)");
        },
        TyKind::Unknown => push_str(out, "unknown"),
    }
    assert(out@ =~= start + shape_text(t@));
}

fn mut_str(m: bool) -> (r: &'static str)
    ensures
        r@ == mut_word(m),
{
    if m {
        "mut "
    } else {
        ""
    }
}

/// Appends the types of `v`, separated by commas.
pub fn write_list(out: &mut String, v: &Vec<TyKind>)
    ensures
        final(out)@ == old(out)@ + list_text(shapes_of(v@)),
    decreases v, 1nat,
{
    let ghost start = out@;
    let ghost s = shapes_of(v@);
    proof {
        lemma_shapes_of_len(v@);
        assert(s.subrange(0, 0) =~= Seq::<Shape>::empty());
        assert(start + list_text(Seq::<Shape>::empty()) =~= start);
    }
    let mut i: usize = 0;
    while i < v.len()
        invariant
            i <= v@.len(),
            s == shapes_of(v@),
            s.len() == v@.len(),
            out@ == start + list_text(s.subrange(0, i as int)),
        decreases v@.len() - i,
    {
        proof {
            lemma_shapes_of_index(v@, i as int);
            assert(s.subrange(0, i + 1).drop_last() =~= s.subrange(0, i as int));
            assert(s.subrange(0, i + 1).last() == s[i as int]);
        }
        let ghost before = out@;
        if i > 0 {
            push_str(out, ", ");
        }
        write_ty(out, &v[i]);
        proof {
            if i == 0 {
                assert(s.subrange(0, 1)[0] == s[0]);
                assert(out@ =~= start + list_text(s.subrange(0, 1)));
            } else {
                assert(out@ =~= start + list_text(s.subrange(0, i + 1)));
            }
        }
        i += 1;
    }
    assert(s.subrange(0, i as int) =~= s);
}

/// Appends the fields of `v` as `name: type`, separated by commas.
pub fn write_fields(out: &mut String, v: &Vec<StructTyField>)
    ensures
        final(out)@ == old(out)@ + fields_text(fields_of(v@)),
    decreases v, 1nat,
{
    let ghost start = out@;
    let ghost s = fields_of(v@);
    proof {
        lemma_fields_of_len(v@);
        assert(start + fields_text(s.subrange(0, 0)) =~= start);
    }
    let mut i: usize = 0;
    while i < v.len()
        invariant
            i <= v@.len(),
            s == fields_of(v@),
            s.len() == v@.len(),
            out@ == start + fields_text(s.subrange(0, i as int)),
        decreases v@.len() - i,
    {
        proof {
            lemma_fields_of_index(v@, i as int);
            assert(s.subrange(0, i + 1).drop_last() =~= s.subrange(0, i as int));
            assert(s.subrange(0, i + 1).last() == s[i as int]);
        }
        if i > 0 {
            push_str(out, ", ");
        }
        push_str(out, v[i].symbol.as_str());
        push_str(out, ": ");
        write_ty(out, &v[i].ty);
        proof {
            if i == 0 {
                assert(s.subrange(0, 1)[0] == s[0]);
                assert(out@ =~= start + fields_text(s.subrange(0, 1)));
            } else {
                assert(out@ =~= start + fields_text(s.subrange(0, i + 1)));
            }
        }
        i += 1;
    }
    assert(s.subrange(0, i as int) =~= s);
}

/// Appends the named types of `v` as `name: type`, separated by commas.
pub fn write_named(out: &mut String, v: &Vec<(String, TyKind)>)
    ensures
        final(out)@ == old(out)@ + fields_text(named_of(v@)),
    decreases v, 1nat,
{
    let ghost start = out@;
    let ghost s = named_of(v@);
    proof {
        lemma_named_of_len(v@);
        assert(start + fields_text(s.subrange(0, 0)) =~= start);
    }
    let mut i: usize = 0;
    while i < v.len()
        invariant
            i <= v@.len(),
            s == named_of(v@),
            s.len() == v@.len(),
            out@ == start + fields_text(s.subrange(0, i as int)),
        decreases v@.len() - i,
    {
        proof {
            lemma_named_of_index(v@, i as int);
            assert(s.subrange(0, i + 1).drop_last() =~= s.subrange(0, i as int));
            assert(s.subrange(0, i + 1).last() == s[i as int]);
        }
        if i > 0 {
            push_str(out, ", ");
        }
        push_str(out, v[i].0.as_str());
        push_str(out, ": ");
        write_ty(out, &v[i].1);
        proof {
            if i == 0 {
                assert(s.subrange(0, 1)[0] == s[0]);
                assert(out@ =~= start + fields_text(s.subrange(0, 1)));
            } else {
                assert(out@ =~= start + fields_text(s.subrange(0, i + 1)));
            }
        }
        i += 1;
    }
    assert(s.subrange(0, i as int) =~= s);
}

/// Renders a type for diagnostics, after resolving what the context knows.
pub trait DisplayTy {
    spec fn shown(&self, cx: &TyContext) -> Seq<char>;

    fn display(&self, cx: &TyContext) -> (r: String)
        ensures
            r@ == self.shown(cx),
    ;
}

impl DisplayTy for TyKind {
    open spec fn shown(&self, cx: &TyContext) -> Seq<char> {
        shape_text(crate::tycx::normalize(cx@, self@, cx@.len() as nat))
    }

    fn display(&self, cx: &TyContext) -> (r: String) {
        let n = cx.normalize(self, cx.len());
        let mut out = String::new();
        write_ty(&mut out, &n);
        assert(out@ =~= shape_text(n@));
        out
    }
}

impl DisplayTy for Ty {
    open spec fn shown(&self, cx: &TyContext) -> Seq<char> {
        shape_text(crate::tycx::normalize(cx@, Shape::Var(self.0), cx@.len() as nat))
    }

    fn display(&self, cx: &TyContext) -> (r: String) {
        self.kind().display(cx)
    }
}

} // verus!

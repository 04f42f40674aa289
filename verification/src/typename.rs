//! Composition of stable type names.
//!
//! A declared identity needs a name that is stable across builds, so names
//! are composed from the declaration itself: a path, a generic application,
//! a tuple, an array, a slice or a reference, each rendered in a fixed
//! format with no spaces.  The rendered string is what the identifier
//! hasher consumes.

use vstd::prelude::*;
use vstd::string::StringExecFns;

verus! {

broadcast use vstd::seq::axiom_seq_index_decreases, vstd::std_specs::vec::group_vec_axioms;

/// The shape of a type, as far as its stable name is concerned.
#[derive(Debug)]
pub enum TypeExpr {
    /// A plain path, e.g. a primitive or a fully qualified type name.
    Path(String),
    /// A shared reference to a type.
    Ref(Box<TypeExpr>),
    /// A shared slice of a type.
    Slice(Box<TypeExpr>),
    /// An array of a type with a constant length.
    Array(Box<TypeExpr>, usize),
    /// A tuple of types.
    Tuple(Vec<TypeExpr>),
    /// A generic type applied to arguments.
    Generic(String, Vec<TypeExpr>),
}

/// The decimal digit `d` as a one-character string.
pub open spec fn spec_dec_digit(d: int) -> Seq<char> {
    if d == 0 {
        "0"@
    } else if d == 1 {
        "1"@
    } else if d == 2 {
        "2"@
    } else if d == 3 {
        "3"@
    } else if d == 4 {
        "4"@
    } else if d == 5 {
        "5"@
    } else if d == 6 {
        "6"@
    } else if d == 7 {
        "7"@
    } else if d == 8 {
        "8"@
    } else {
        "9"@
    }
}

/// The decimal rendering of `n`.
pub open spec fn spec_dec_u64(n: int) -> Seq<char>
    decreases n,
{
    if n < 10 {
        spec_dec_digit(n)
    } else {
        spec_dec_u64(n / 10) + spec_dec_digit(n % 10)
    }
}

fn dec_digit_str(d: u64) -> (r: &'static str)
    requires
        d < 10,
    ensures
        r@ == spec_dec_digit(d as int),
{
    if d == 0 {
        "0"
    } else if d == 1 {
        "1"
    } else if d == 2 {
        "2"
    } else if d == 3 {
        "3"
    } else if d == 4 {
        "4"
    } else if d == 5 {
        "5"
    } else if d == 6 {
        "6"
    } else if d == 7 {
        "7"
    } else if d == 8 {
        "8"
    } else {
        "9"
    }
}

/// The decimal rendering of `n` as an owned string.
pub fn u64_to_dec(n: u64) -> (r: String)
    ensures
        r@ == spec_dec_u64(n as int),
    decreases n,
{
    if n < 10 {
        String::from_str(dec_digit_str(n))
    } else {
        let mut s = u64_to_dec(n / 10);
        s.append(dec_digit_str(n % 10));
        s
    }
}

/// The rendering of an array length: lengths up to 32 and the customary
/// powers of two are written out; any other length is written `N`.
pub open spec fn spec_usize_to_str(n: int) -> Seq<char> {
    if 0 <= n <= 32 {
        spec_dec_u64(n)
    } else if n == 64 || n == 128 || n == 256 || n == 512 || n == 768 || n == 1024 || n == 2048
        || n == 4096 || n == 8192 || n == 16384 || n == 32768 || n == 65536 {
        spec_dec_u64(n)
    } else {
        "N"@
    }
}

/// Render an array length, as [`spec_usize_to_str`] describes.
pub fn usize_to_str(n: usize) -> (r: String)
    ensures
        r@ == spec_usize_to_str(n as int),
{
    if n <= 32 {
        u64_to_dec(n as u64)
    } else if n == 64 || n == 128 || n == 256 || n == 512 || n == 768 || n == 1024 || n == 2048
        || n == 4096 || n == 8192 || n == 16384 || n == 32768 || n == 65536 {
        u64_to_dec(n as u64)
    } else {
        String::from_str("N")
    }
}

/// The comma-joined rendering of the first `j` elements of `args`.
pub open spec fn spec_join(args: Seq<TypeExpr>, j: int) -> Seq<char>
    decreases args, j,
    via spec_join_dec
{
    if j <= 0 || j > args.len() {
        Seq::empty()
    } else {
        spec_join(args, j - 1) + (if j > 1 {
            ","@
        } else {
            Seq::empty()
        }) + spec_render(args[j - 1])
    }
}

#[via_fn]
proof fn spec_join_dec(args: Seq<TypeExpr>, j: int) {
    if 0 < j <= args.len() {
        assert(decreases_to!(args => args[j - 1]));
    }
}

/// The stable name of a type shape: paths stand as declared; references,
/// slices and arrays wrap their element's name; tuples and generic
/// applications join their arguments with commas, a one-element tuple
/// keeping its trailing comma.
pub open spec fn spec_render(t: TypeExpr) -> Seq<char>
    decreases t, 0int,
    via spec_render_dec
{
    match t {
        TypeExpr::Path(s) => s@,
        TypeExpr::Ref(inner) => "&"@ + spec_render(*inner),
        TypeExpr::Slice(inner) => "&["@ + spec_render(*inner) + "]"@,
        TypeExpr::Array(inner, n) => "["@ + spec_render(*inner) + ";"@ + spec_usize_to_str(n as int)
            + "]"@,
        TypeExpr::Tuple(args) => "("@ + spec_join(args@, args@.len() as int) + (if args@.len() == 1 {
            ",)"@
        } else {
            ")"@
        }),
        TypeExpr::Generic(base, args) => base@ + "<"@ + spec_join(args@, args@.len() as int)
            + ">"@,
    }
}

#[via_fn]
proof fn spec_render_dec(t: TypeExpr) {
    match t {
        TypeExpr::Tuple(args) => {
            assert(decreases_to!(args => args@));
        },
        TypeExpr::Generic(base, args) => {
            assert(decreases_to!(args => args@));
        },
        _ => {},
    }
}

/// Render the stable name of a type shape.
#[verifier::loop_isolation(false)]
pub fn type_to_string(t: &TypeExpr) -> (r: String)
    ensures
        r@ == spec_render(*t),
    decreases *t,
{
    match t {
        TypeExpr::Path(s) => s.clone(),
        TypeExpr::Ref(inner) => {
            let mut out = String::from_str("&");
            let piece = type_to_string(inner);
            out.append(piece.as_str());
            out
        },
        TypeExpr::Slice(inner) => {
            let mut out = String::from_str("&[");
            let piece = type_to_string(inner);
            out.append(piece.as_str());
            out.append("]");
            proof {
                assert(out@ =~= spec_render(*t));
            }
            out
        },
        TypeExpr::Array(inner, n) => {
            let mut out = String::from_str("[");
            let piece = type_to_string(inner);
            out.append(piece.as_str());
            out.append(";");
            let len_str = usize_to_str(*n);
            out.append(len_str.as_str());
            out.append("]");
            proof {
                assert(out@ =~= spec_render(*t));
            }
            out
        },
        TypeExpr::Tuple(args) => {
            let mut out = String::from_str("(");
            let mut j: usize = 0;
            while j < args.len()
                invariant
                    j <= args@.len(),
                    out@ == "("@ + spec_join(args@, j as int),
                decreases args@.len() - j,
            {
                if j > 0 {
                    out.append(",");
                }
                proof {
                    assert(decreases_to!(*args => args@[j as int]));
                }
                let piece = type_to_string(&args[j]);
                out.append(piece.as_str());
                proof {
                    assert(out@ =~= "("@ + spec_join(args@, j + 1));
                }
                j = j + 1;
            }
            if args.len() == 1 {
                out.append(",)");
            } else {
                out.append(")");
            }
            proof {
                assert(out@ =~= spec_render(*t));
            }
            out
        },
        TypeExpr::Generic(base, args) => {
            let mut out = base.clone();
            out.append("<");
            let mut j: usize = 0;
            while j < args.len()
                invariant
                    j <= args@.len(),
                    out@ == base@ + "<"@ + spec_join(args@, j as int),
                decreases args@.len() - j,
            {
                if j > 0 {
                    out.append(",");
                }
                proof {
                    assert(decreases_to!(*args => args@[j as int]));
                }
                let piece = type_to_string(&args[j]);
                out.append(piece.as_str());
                proof {
                    assert(out@ =~= base@ + "<"@ + spec_join(args@, j + 1));
                }
                j = j + 1;
            }
            out.append(">");
            proof {
                assert(out@ =~= spec_render(*t));
            }
            out
        },
    }
}

} // verus!

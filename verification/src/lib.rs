//! Decodes versioned runtime metadata into a strongly-typed model of a
//! runtime's modules: their calls, events and storage entries, together with
//! the recursive algebra of the type expressions that appear inside the
//! metadata and the set of named types each module depends on.

pub mod casing;
pub mod decl;
pub mod entries;
pub mod error;
pub mod module;
pub mod schema;
pub mod text;
pub mod types;

use vstd::prelude::*;

use crate::casing::camel_of;
use crate::casing::snake_of;
use crate::casing::to_camel;
use crate::casing::to_snake;
use crate::decl::ModuleDeclModel;
use crate::decl::ModuleDeclaration;
use crate::decl::modules_view;
use crate::error::Error;
use crate::error::ErrorModel;
use crate::error::unresolved_model;
use crate::module::aggregate_module;
use crate::module::module_decode_spec;
use crate::schema::DecodeArrayOrElse;
use crate::schema::Metadata;
use crate::schema::ModuleSchema;

verus! {

/// What decoding one module node yields: its raw name unwrapped and
/// normalized through the case conversions, then aggregated.
pub open spec fn module_decode_full_spec(m: ModuleSchema, excl: Seq<Seq<char>>) -> Result<
    Option<ModuleDeclModel>,
    ErrorModel,
> {
    if !m.name.is_resolved() {
        Err(unresolved_model())
    } else {
        module_decode_spec(
            camel_of(m.name.value()@),
            snake_of(camel_of(m.name.value()@)),
            m,
            excl,
        )
    }
}

/// Decode one module node: unwrap its name, normalize it, and aggregate its
/// calls, events and storage entries.
pub fn add_module(module: &ModuleSchema, exclusions: &Vec<String>) -> (r: Result<
    Option<ModuleDeclaration>,
    Error,
>)
    ensures
        match r {
            Ok(d) => match d {
                Some(d) => module_decode_full_spec(*module, exclusions.deep_view()) == Ok::<
                    Option<ModuleDeclModel>,
                    ErrorModel,
                >(Some(d@)) && d.dependency_types.deep_view().no_duplicates(),
                None => module_decode_full_spec(*module, exclusions.deep_view()) == Ok::<
                    Option<ModuleDeclModel>,
                    ErrorModel,
                >(None),
            },
            Err(e) => module_decode_full_spec(*module, exclusions.deep_view()) == Err::<
                Option<ModuleDeclModel>,
                ErrorModel,
            >(e@),
        },
{
    let name = match module.name.as_resolved() {
        Ok(n) => n,
        Err(e) => {
            return Err(e);
        },
    };
    let camel = to_camel(name.as_str());
    let snake = to_snake(camel.as_str());
    aggregate_module(camel, snake, module, exclusions)
}

/// Module nodes processed strictly in declaration order; the first failure
/// aborts the document, and the system module contributes nothing.
pub open spec fn modules_decode_spec(ms: Seq<ModuleSchema>, excl: Seq<Seq<char>>) -> Result<
    Seq<ModuleDeclModel>,
    ErrorModel,
>
    decreases ms.len(),
{
    if ms.len() == 0 {
        Ok(Seq::empty())
    } else {
        match module_decode_full_spec(ms[0], excl) {
            Err(e) => Err(e),
            Ok(opt) => match modules_decode_spec(ms.drop_first(), excl) {
                Err(e) => Err(e),
                Ok(rest) => Ok(
                    match opt {
                        Some(d) => seq![d] + rest,
                        None => rest,
                    },
                ),
            },
        }
    }
}

/// What the whole document yields: the per-module packages in order for the
/// one recognized version, the unsupported-version error for any other tag,
/// and no partial output in either failure.
pub open spec fn document_decode_spec(meta: Metadata, excl: Seq<Seq<char>>) -> Result<
    Seq<ModuleDeclModel>,
    ErrorModel,
> {
    match meta {
        Metadata::Other(v) => Err(ErrorModel::UnsupportedVersion(v)),
        Metadata::V12(raw) => if !raw.is_resolved() {
            Err(unresolved_model())
        } else {
            modules_decode_spec(raw.value()@, excl)
        },
    }
}

/// Decode a versioned metadata document into the ordered per-module
/// packages that the emission sink consumes.
#[verifier::loop_isolation(false)]
pub fn decode_metadata(metadata: Metadata, exclusions: &Vec<String>) -> (r: Result<
    Vec<ModuleDeclaration>,
    Error,
>)
    ensures
        match r {
            Ok(ds) => document_decode_spec(metadata, exclusions.deep_view()) == Ok::<
                Seq<ModuleDeclModel>,
                ErrorModel,
            >(modules_view(ds@)) && (forall|j: int|
                0 <= j < ds@.len() ==> ds@[j].dependency_types.deep_view().no_duplicates()),
            Err(e) => document_decode_spec(metadata, exclusions.deep_view()) == Err::<
                Seq<ModuleDeclModel>,
                ErrorModel,
            >(e@),
        },
{
    let ghost excl = exclusions.deep_view();
    match metadata {
        Metadata::Other(v) => Err(Error::UnsupportedVersion(v)),
        Metadata::V12(raw) => {
            let modules = match raw.decode_array_or_else() {
                Ok(m) => m,
                Err(e) => {
                    return Err(e);
                },
            };
            let mut out: Vec<ModuleDeclaration> = Vec::new();
            let mut i: usize = 0;
            proof {
                assert(modules@.subrange(0, modules@.len() as int) =~= modules@);
                assert(modules_view(out@) =~= Seq::<ModuleDeclModel>::empty());
                match modules_decode_spec(modules@, excl) {
                    Ok(rest) => {
                        assert(modules_view(out@) + rest =~= rest);
                    },
                    Err(_) => {},
                }
            }
            while i < modules.len()
                invariant
                    0 <= i <= modules@.len(),
                    forall|j: int|
                        0 <= j < out@.len()
                            ==> out@[j].dependency_types.deep_view().no_duplicates(),
                    match modules_decode_spec(
                        modules@.subrange(i as int, modules@.len() as int),
                        excl,
                    ) {
                        Ok(rest) => modules_decode_spec(modules@, excl) == Ok::<
                            Seq<ModuleDeclModel>,
                            ErrorModel,
                        >(modules_view(out@) + rest),
                        Err(e) => modules_decode_spec(modules@, excl) == Err::<
                            Seq<ModuleDeclModel>,
                            ErrorModel,
                        >(e),
                    },
                decreases modules@.len() - i,
            {
                let ghost subi = modules@.subrange(i as int, modules@.len() as int);
                proof {
                    assert(subi.len() > 0);
                    assert(subi[0] == modules@[i as int]);
                    assert(subi.drop_first() =~= modules@.subrange(
                        i as int + 1,
                        modules@.len() as int,
                    ));
                }
                match add_module(&modules[i], exclusions) {
                    Ok(Some(d)) => {
                        let ghost out0 = out@;
                        let ghost dg = d;
                        out.push(d);
                        proof {
                            assert forall|j: int| 0 <= j < out@.len() implies modules_view(
                                out@,
                            )[j] == modules_view(out0).push(dg@)[j] by {
                                if j < out0.len() {
                                    assert(out@[j] == out0[j]);
                                } else {
                                    assert(out@[j] == dg);
                                }
                            }
                            assert(modules_view(out@) =~= modules_view(out0).push(dg@));
                            match modules_decode_spec(subi.drop_first(), excl) {
                                Ok(rest) => {
                                    assert(modules_view(out0) + (seq![dg@] + rest)
                                        =~= modules_view(out@) + rest);
                                },
                                Err(_) => {},
                            }
                        }
                    },
                    Ok(None) => {
                    },
                    Err(e) => {
                        return Err(e);
                    },
                }
                i += 1;
            }
            proof {
                assert(modules@.subrange(i as int, modules@.len() as int) =~= Seq::<
                    ModuleSchema,
                >::empty());
                assert(modules_view(out@) + Seq::<ModuleDeclModel>::empty() =~= modules_view(
                    out@,
                ));
            }
            Ok(out)
        },
    }
}

} // verus!

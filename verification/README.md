# kaitai_hir

Checks Kaitai Struct format descriptions and generates the Rust code that reads them.
The library is verified with Verus: every function states in its contract which tokens it
generates, and for which descriptions it generates any.

- `src/de.rs`: a description as it was read.
- `src/hir/`: its checked form (`builtin`, `pattern`, `attr`, `ty`), the way there (`lower`),
  and the mathematical model of fields and of their code (`model`).
- `src/code.rs`, `src/items.rs`: the fragments that the generated code is made of.
- `src/text.rs`, `src/ident.rs`: names, numbers and the order of texts.
- `src/tokens.rs`: token streams, and all calls into `proc_macro2` and `quote`. These calls
  are trusted; everything else is proved.
- `src/laws/`: what holds of the library as a whole.
- `app/`: the library's values as `quote::ToTokens`.

`hir::ty::Type::checked_from` and `hir::ty::Type::checked_tokens` take any input. Where a
`requires` depends on names or code in a description, a function tells whether it is met:

| function | test |
| --- | --- |
| `Ident::new`, `buf_call_stream` | `is_valid_ident` |
| `Pattern::to_tokens` | `Pattern::is_renderable` |
| `widen` | `can_widen` |
| `unify_switch_cases` | `checked_unify` |
| `discriminant_type_from_cases` | `is_all_bool` or `checked_unify` |
| `hir::attr::Type::from` | `is_type_ok` |
| `lower_cases` | `is_cases_ok` |
| `Attribute::try_from` | `Attribute::is_attr_ok` |
| `Attributes::try_from` | `is_seq_ok` |
| `Attribute::field_definition` | `Attribute::is_definable` |
| `Attribute::variable_assignment` | `Attribute::is_assignable` |
| `Attributes::field_definitions`, `variable_assignments`, `variable_assignments_with_root_rewrite` | `Attributes::is_all_assignable` |
| `Attributes::root_refs`, `hir::ty::Type::root_refs` | `Attributes::checked_root_refs` |
| `hir::ty::Type::try_from` | `is_struct_ok` |
| `hir::ty::Type::to_tokens` | `hir::ty::Type::is_renderable` |

The others ask for what a caller sees in the value: `ks_type` and `read_call_stream` for a type
that is no bit field, `byte_width` for at most 248 bits, `from_width_signed` for 1, 2, 4 or 8,
`separate` for a punctuation character, `is_stored` and `field_assignments` for fields without
a processing routine.

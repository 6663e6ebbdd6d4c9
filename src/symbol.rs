//! Operator handles come from `symbol_table`'s global interner.
use symbol_table::GlobalSymbol;
use vstd::prelude::*;

verus! {

/// `GlobalSymbol` is an opaque, copyable handle into the process-wide symbol table.
#[verifier::external_type_specification]
#[verifier::external_body]
pub struct ExGlobalSymbol(GlobalSymbol);

/// The text that the global table holds for a handle. Entries are never freed
/// nor overwritten, so a handle stands for one text for the life of the program.
pub uninterp spec fn symbol_text(s: GlobalSymbol) -> Seq<char>;

/// Whether a handle was handed out by the global table for some text. A handle
/// made from a bare number need not name any entry.
pub uninterp spec fn symbol_interned(s: GlobalSymbol) -> bool;

/// Relies on `GlobalSymbol`'s `From<String>`: it interns the text and returns
/// the handle of the entry that holds it, an existing equal one or a new one.
pub assume_specification[ <GlobalSymbol as From<String>>::from ](s: String) -> (r: GlobalSymbol)
    ensures
        symbol_interned(r),
        symbol_text(r) == s@,
;

/// Relies on `GlobalSymbol::as_str`: it resolves the handle in the global table
/// and hands back the interned text. It panics on a handle that names no entry.
pub assume_specification[ GlobalSymbol::as_str ](s: &GlobalSymbol) -> (r: &'static str)
    requires
        symbol_interned(*s),
    ensures
        r@ == symbol_text(*s),
;

/// Relies on `GlobalSymbol`'s `Clone`, derived beside `Copy`: a clone is the
/// same handle. `ENode`'s derived `Clone` calls it.
pub assume_specification[ <GlobalSymbol as Clone>::clone ](s: &GlobalSymbol) -> (r: GlobalSymbol)
    ensures
        r == *s,
;

/// Interns `text` in the global table and returns its handle.
pub fn intern(text: String) -> (r: GlobalSymbol)
    ensures
        symbol_interned(r),
        symbol_text(r) == text@,
{
    GlobalSymbol::from(text)
}

} // verus!

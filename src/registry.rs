//! The operations that change the alias table.
use vstd::prelude::*;

use crate::config::{lemma_map_of_finite, Config};
use crate::error::PintasError;

verus! {

/// Adds `alias` for `command`; an alias that is already there is refused and
/// the table is left as it was.
pub fn add_alias(config: &mut Config, alias: &str, command: &str) -> (r: Result<(), PintasError>)
    ensures
        match r {
            Ok(()) => {
                &&& !old(config)@.contains_key(alias@)
                &&& final(config)@ == old(config)@.insert(alias@, command@)
                &&& final(config)@.len() == old(config)@.len() + 1
            },
            Err(e) => {
                &&& old(config)@.contains_key(alias@)
                &&& final(config)@ == old(config)@
                &&& e matches PintasError::AliasAlreadyExists(n) && n@ == alias@
            },
        },
{
    if config.contains_key(alias) {
        return Err(PintasError::AliasAlreadyExists(alias.to_owned()));
    }
    proof {
        lemma_map_of_finite(config.pairs());
    }
    config.insert(alias.to_owned(), command.to_owned());
    Ok(())
}

/// Gives the alias `alias` the command `new_command`; a name that is not an
/// alias is refused and the table is left as it was.
pub fn edit_alias(config: &mut Config, alias: &str, new_command: &str) -> (r: Result<(), PintasError>)
    ensures
        match r {
            Ok(()) => {
                &&& old(config)@.contains_key(alias@)
                &&& final(config)@ == old(config)@.insert(alias@, new_command@)
                &&& final(config)@.len() == old(config)@.len()
            },
            Err(e) => {
                &&& !old(config)@.contains_key(alias@)
                &&& final(config)@ == old(config)@
                &&& e matches PintasError::AliasNotFound(n) && n@ == alias@
            },
        },
{
    if !config.contains_key(alias) {
        return Err(PintasError::AliasNotFound(alias.to_owned()));
    }
    proof {
        lemma_map_of_finite(config.pairs());
        assert(config@.insert(alias@, new_command@).dom() =~= config@.dom());
    }
    config.insert(alias.to_owned(), new_command.to_owned());
    Ok(())
}

/// Removes the alias `alias`; a name that is not an alias is refused and the
/// table is left as it was.
pub fn remove_alias(config: &mut Config, alias: &str) -> (r: Result<(), PintasError>)
    ensures
        match r {
            Ok(()) => {
                &&& old(config)@.contains_key(alias@)
                &&& final(config)@ == old(config)@.remove(alias@)
                &&& final(config)@.len() + 1 == old(config)@.len()
            },
            Err(e) => {
                &&& !old(config)@.contains_key(alias@)
                &&& final(config)@ == old(config)@
                &&& e matches PintasError::AliasNotFound(n) && n@ == alias@
            },
        },
{
    proof {
        lemma_map_of_finite(config.pairs());
    }
    match config.remove(alias) {
        Some(_) => Ok(()),
        None => Err(PintasError::AliasNotFound(alias.to_owned())),
    }
}

} // verus!

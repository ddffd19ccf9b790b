//! Where the settings are stored.
//!
//! On Unix, paths are the bytes that the operating system knows them by. Where the system has
//! paths of another kind, what is decided about them is generic in the type of a path.

use vstd::prelude::*;

verus! {

/// What can go wrong when the settings directory is looked for. `P` is a path.
#[derive(Debug)]
pub enum Error<P> {
    /// The system has no directory to keep settings in.
    FindDirError,
    /// The directory at this path could not be created.
    CreateDirFailed(P, std::io::Error),
}

/// The byte that separates the components of a path.
pub const SEPARATOR: u8 = 0x2f;

/// The path `/etc`.
pub open spec fn etc() -> Seq<u8> {
    seq![0x2fu8, 0x65u8, 0x74u8, 0x63u8]
}

/// The path `name`, taken relative to the path `base`. A separator goes between the two, unless
/// `base` is empty or ends in one. If `name` begins with a separator it is returned as it is.
pub open spec fn joined(base: Seq<u8>, name: Seq<u8>) -> Seq<u8> {
    if name.len() > 0 && name[0] == SEPARATOR {
        name
    } else if base.len() > 0 && base.last() != SEPARATOR {
        base.push(SEPARATOR) + name
    } else {
        base + name
    }
}

/// Joins two paths.
fn join(base: Vec<u8>, name: &Vec<u8>) -> (path: Vec<u8>)
    ensures
        path@ == joined(base@, name@),
{
    let mut path = base;
    if name.len() > 0 && name[0] == SEPARATOR {
        path.clear();
    } else if path.len() > 0 && path[path.len() - 1] != SEPARATOR {
        path.push(SEPARATOR);
    }
    let ghost start = path@;
    let mut i: usize = 0;
    while i < name.len()
        invariant
            i <= name.len(),
            path@ == start + name@.take(i as int),
        decreases name.len() - i,
    {
        path.push(name[i]);
        i = i + 1;
        assert(path@ =~= start + name@.take(i as int));
    }
    assert(name@.take(i as int) =~= name@);
    assert(path@ =~= joined(base@, name@));
    path
}

/// The default settings directory: the directory of the product in `/etc`.
pub fn get_default_settings_dir(product_name: &Vec<u8>) -> (dir: Result<Vec<u8>, Error<Vec<u8>>>)
    ensures
        dir matches Ok(path) && path@ == joined(etc(), product_name@),
        dir matches Ok(path) && path@ == if product_name@.len() > 0 && product_name@[0] == 0x2f {
            product_name@
        } else {
            seq![0x2fu8, 0x65u8, 0x74u8, 0x63u8, 0x2fu8] + product_name@
        },
{
    let base: Vec<u8> = vec![0x2f, 0x65, 0x74, 0x63];
    assert(base@ =~= etc());
    assert(etc().push(SEPARATOR) =~= seq![0x2fu8, 0x65u8, 0x74u8, 0x63u8, 0x2fu8]);
    Ok(join(base, product_name))
}

/// The directory that settings go below on a system that names one per user, if it does.
pub fn find_data_dir<P>(data_local_dir: Option<P>) -> (dir: Result<P, Error<P>>)
    ensures
        match data_local_dir {
            Some(path) => dir == Ok::<P, Error<P>>(path),
            None => dir == Err::<P, Error<P>>(Error::FindDirError),
        },
{
    match data_local_dir {
        Some(path) => Ok(path),
        None => Err(Error::FindDirError),
    }
}

/// The default settings directory on a system that names a directory for settings per user: what
/// `join` makes of that directory and the name of the product.
pub fn default_dir_below<P, J: FnOnce(P, &str) -> P>(
    data_local_dir: Option<P>,
    product_name: &str,
    join: J,
) -> (dir: Result<P, Error<P>>)
    requires
        data_local_dir matches Some(base) ==> join.requires((base, product_name)),
    ensures
        match data_local_dir {
            Some(base) => dir matches Ok(path) && join.ensures((base, product_name), path),
            None => dir == Err::<P, Error<P>>(Error::FindDirError),
        },
{
    match find_data_dir(data_local_dir) {
        Ok(base) => Ok(join(base, product_name)),
        Err(error) => Err(error),
    }
}

/// The settings directory that is in effect: what `MULLVAD_SETTINGS_DIR` holds, or the default
/// one if that variable is unset.
pub fn chosen_dir<P>(variable: Option<P>, default: Result<P, Error<P>>) -> (dir: Result<
    P,
    Error<P>,
>)
    ensures
        match variable {
            Some(path) => dir == Ok::<P, Error<P>>(path),
            None => dir == default,
        },
{
    match variable {
        Some(path) => Ok(path),
        None => default,
    }
}

/// Returns the directory, given what came of creating it.
pub fn create_and_return<P>(dir: P, created: Result<(), std::io::Error>) -> (result: Result<
    P,
    Error<P>,
>)
    ensures
        match created {
            Ok(_) => result == Ok::<P, Error<P>>(dir),
            Err(cause) => result == Err::<P, Error<P>>(Error::CreateDirFailed(dir, cause)),
        },
{
    match created {
        Ok(_) => Ok(dir),
        Err(cause) => Err(Error::CreateDirFailed(dir, cause)),
    }
}

/// The settings directory that is in effect, given what `MULLVAD_SETTINGS_DIR` holds.
pub open spec fn settings_path(variable: Option<Seq<u8>>, product_name: Seq<u8>) -> Seq<u8> {
    match variable {
        Some(path) => path,
        None => joined(etc(), product_name),
    }
}

/// The bytes of a variable that may be unset.
pub open spec fn variable_bytes(variable: Option<Vec<u8>>) -> Option<Seq<u8>> {
    match variable {
        Some(bytes) => Some(bytes@),
        None => None,
    }
}

/// A variable that is set is the settings directory, byte for byte and whatever the product is
/// called. Otherwise the directory is that of the product in `/etc`, or the name of the product
/// itself if it is an absolute path.
pub proof fn law_settings_path(value: Seq<u8>, product_name: Seq<u8>)
    ensures
        settings_path(Some(value), product_name) == value,
        !(product_name.len() > 0 && product_name[0] == 0x2f) ==> settings_path(None, product_name)
            == seq![0x2fu8, 0x65u8, 0x74u8, 0x63u8, 0x2fu8] + product_name,
        product_name.len() > 0 && product_name[0] == 0x2f ==> settings_path(None, product_name)
            == product_name,
{
    assert(etc().push(SEPARATOR) =~= seq![0x2fu8, 0x65u8, 0x74u8, 0x63u8, 0x2fu8]);
}

/// Returns the settings directory that is in effect, given the value of
/// `MULLVAD_SETTINGS_DIR`.
pub fn get_settings_dir(variable: Option<Vec<u8>>, product_name: &Vec<u8>) -> (dir: Result<
    Vec<u8>,
    Error<Vec<u8>>,
>)
    ensures
        dir matches Ok(path) && path@ == settings_path(variable_bytes(variable), product_name@),
        variable matches Some(value) ==> (dir matches Ok(path) && path@ == value@),
        variable is None ==> (dir matches Ok(path) && path@ == if product_name@.len() > 0
            && product_name@[0] == 0x2f {
            product_name@
        } else {
            seq![0x2fu8, 0x65u8, 0x74u8, 0x63u8, 0x2fu8] + product_name@
        }),
{
    chosen_dir(variable, get_default_settings_dir(product_name))
}

/// Returns the settings directory pointed to by `MULLVAD_SETTINGS_DIR`, or the default one if
/// that variable is unset. `created` is what came of creating the directory that
/// [`get_settings_dir`] returns; if that failed, so does this.
pub fn settings_dir(
    variable: Option<Vec<u8>>,
    product_name: &Vec<u8>,
    created: Result<(), std::io::Error>,
) -> (dir: Result<Vec<u8>, Error<Vec<u8>>>)
    ensures
        match created {
            Ok(_) => dir matches Ok(path) && path@ == settings_path(
                variable_bytes(variable),
                product_name@,
            ),
            Err(cause) => dir matches Err(Error::CreateDirFailed(path, source)) && source == cause
                && path@ == settings_path(variable_bytes(variable), product_name@),
        },
        dir is Ok <==> created is Ok,
        variable matches Some(value) ==> match dir {
            Ok(path) => path@ == value@,
            Err(Error::CreateDirFailed(path, source)) => path@ == value@ && created == Err::<
                (),
                std::io::Error,
            >(source),
            Err(Error::FindDirError) => false,
        },
        variable is None ==> ({
            let default = if product_name@.len() > 0 && product_name@[0] == 0x2f {
                product_name@
            } else {
                seq![0x2fu8, 0x65u8, 0x74u8, 0x63u8, 0x2fu8] + product_name@
            };
            match dir {
                Ok(path) => path@ == default,
                Err(Error::CreateDirFailed(path, source)) => path@ == default && created == Err::<
                    (),
                    std::io::Error,
                >(source),
                Err(Error::FindDirError) => false,
            }
        }),
{
    match get_settings_dir(variable, product_name) {
        Ok(path) => create_and_return(path, created),
        Err(error) => Err(error),
    }
}

} // verus!

//! Service configuration and its validation.

use std::path::PathBuf;
use vstd::prelude::*;

verus! {

/// A path of the operating system.
#[verifier::external_type_specification]
#[verifier::external_body]
pub struct ExPathBuf(PathBuf);

/// The bytes of a path.
pub uninterp spec fn path_bytes(path: PathBuf) -> Seq<u8>;

/// A path seen from another one, on Unix: an absolute path, which starts with a
/// slash, is itself. Any other one follows the base, after a slash where the base
/// does not end in one.
pub open spec fn adjoined(base: Seq<u8>, path: Seq<u8>) -> Seq<u8> {
    if path.len() > 0 && path[0] == 47 {
        path
    } else if base.len() == 0 || base.last() == 47 {
        base + path
    } else {
        base.push(47) + path
    }
}

/// `Path::join` on Unix adjoins a path to this one, with a slash between them
/// where the first does not end in one; an absolute path replaces it.
#[verifier::external_body]
fn join(base: &PathBuf, path: &PathBuf) -> (joined: PathBuf)
    ensures
        path_bytes(joined) == adjoined(path_bytes(*base), path_bytes(*path)),
{
    base.join(path)
}

/// `PathBuf::clone` gives the same path.
pub assume_specification[ <PathBuf as Clone>::clone ](path: &PathBuf) -> (copy: PathBuf)
    ensures
        copy == *path,
;

/// How output is presented.
#[derive(Clone, Copy, Debug, PartialEq, Eq, Structural)]
pub enum Layout {
    Tabbed,
    Linear,
}

impl Default for Layout {
    fn default() -> (layout: Self)
        ensures
            layout is Tabbed,
    {
        Layout::Tabbed
    }
}

/// A configured service.
#[derive(Debug)]
pub struct Service {
    pub name: String,
    pub cmd: String,
    pub cwd: PathBuf,
    pub autostart: bool,
    pub hide_stderr: bool,
}

impl Clone for Service {
    fn clone(&self) -> (copy: Self)
        ensures
            copy == *self,
    {
        Service {
            name: self.name.clone(),
            cmd: self.cmd.clone(),
            cwd: self.cwd.clone(),
            autostart: self.autostart,
            hide_stderr: self.hide_stderr,
        }
    }
}

/// A whole configuration.
#[derive(Debug)]
pub struct Config {
    pub services: Vec<Service>,
    pub layout: Layout,
}

/// Whether a service starts by itself when its configuration does not say.
pub fn enabled() -> (enabled: bool)
    ensures
        enabled,
{
    true
}

/// The characters with Unicode's `White_Space` property.
pub open spec fn white_space(c: char) -> bool {
    ||| '\u{9}' <= c <= '\u{d}'
    ||| c == '\u{20}'
    ||| c == '\u{85}'
    ||| c == '\u{a0}'
    ||| c == '\u{1680}'
    ||| '\u{2000}' <= c <= '\u{200a}'
    ||| c == '\u{2028}'
    ||| c == '\u{2029}'
    ||| c == '\u{202f}'
    ||| c == '\u{205f}'
    ||| c == '\u{3000}'
}

/// The characters of Unicode's category `Cc`.
pub open spec fn control(c: char) -> bool {
    c <= '\u{1f}' || '\u{7f}' <= c <= '\u{9f}'
}

/// `char::is_whitespace` tests for the `White_Space` property.
pub assume_specification[ char::is_whitespace ](c: char) -> (result: bool)
    ensures
        result == white_space(c),
;

/// `char::is_control` tests for the category `Cc`.
pub assume_specification[ char::is_control ](c: char) -> (result: bool)
    ensures
        result == control(c),
;

/// Nothing but white space.
pub open spec fn blank(text: Seq<char>) -> bool {
    forall|i: int| 0 <= i < text.len() ==> white_space(#[trigger] text[i])
}

/// Some character is a control character.
pub open spec fn has_control(text: Seq<char>) -> bool {
    exists|i: int| 0 <= i < text.len() && control(#[trigger] text[i])
}

/// What was found where a service is to run.
#[derive(Debug)]
pub enum Directory {
    /// A directory, by its canonical path.
    Found(PathBuf),
    /// Something else than a directory.
    NotDirectory,
    /// Nothing that can be reached: the path as shown, and why.
    Invalid { directory: String, error: String },
}

/// The first thing wrong with service `index`, given what was found where it is
/// to run.
pub open spec fn fault(services: Seq<Service>, index: int, found: Directory) -> Option<Seq<char>> {
    let service = services[index];
    if blank(service.name@) || has_control(service.name@) {
        Some("service names must be nonempty and contain no control characters"@)
    } else if exists|j: int| 0 <= j < index && #[trigger] services[j].name@ == service.name@ {
        Some("duplicate service name: "@ + service.name@)
    } else if blank(service.cmd@) || service.cmd@.contains('\0') {
        Some(service.name@ + ": cmd must be nonempty and contain no NUL bytes"@)
    } else {
        match found {
            Directory::Found(_) => None,
            Directory::NotDirectory => Some(service.name@ + ": cwd is not a directory"@),
            Directory::Invalid { directory, error } => Some(
                service.name@ + ": invalid cwd "@ + directory@ + ": "@ + error@,
            ),
        }
    }
}

/// The first thing wrong with the first `upto` services.
pub open spec fn first_fault(services: Seq<Service>, found: Seq<Directory>, upto: int) -> Option<
    Seq<char>,
>
    decreases upto,
{
    if upto <= 0 {
        None
    } else {
        match first_fault(services, found, upto - 1) {
            Some(text) => Some(text),
            None => fault(services, upto - 1, found[upto - 1]),
        }
    }
}

/// Why the services are rejected, if they are.
pub open spec fn rejection(services: Seq<Service>, found: Seq<Directory>) -> Option<Seq<char>> {
    if services.len() == 0 {
        Some("services must contain at least one service"@)
    } else {
        first_fault(services, found, services.len() as int)
    }
}

/// What is wrong with the first services stays the first thing wrong, whatever
/// follows.
pub proof fn first_fault_is_lasting(
    services: Seq<Service>,
    found: Seq<Directory>,
    upto: int,
    end: int,
)
    requires
        upto <= end,
        first_fault(services, found, upto) is Some,
    ensures
        first_fault(services, found, end) == first_fault(services, found, upto),
    decreases end,
{
    if upto < end {
        first_fault_is_lasting(services, found, upto, end - 1);
    }
}

/// `service` with the directory that was found for it.
pub open spec fn settled(service: Service, found: Directory) -> Service {
    Service { cwd: found->Found_0, ..service }
}

fn is_blank(text: &str) -> (result: bool)
    ensures
        result == blank(text@),
{
    for c in iter: text.chars()
        invariant
            iter.seq() == text@,
            forall|i: int| 0 <= i < iter.index() ==> white_space(#[trigger] text@[i]),
    {
        if !c.is_whitespace() {
            assert(!white_space(text@[iter.index() as int]));
            return false;
        }
    }
    true
}

fn contains_control(text: &str) -> (result: bool)
    ensures
        result == has_control(text@),
{
    for c in iter: text.chars()
        invariant
            iter.seq() == text@,
            forall|i: int| 0 <= i < iter.index() ==> !control(#[trigger] text@[i]),
    {
        if c.is_control() {
            assert(control(text@[iter.index() as int]));
            return true;
        }
    }
    false
}

fn contains_nul(text: &str) -> (result: bool)
    ensures
        result == text@.contains('\0'),
{
    for c in iter: text.chars()
        invariant
            iter.seq() == text@,
            forall|i: int| 0 <= i < iter.index() ==> #[trigger] text@[i] != '\0',
    {
        if c == '\0' {
            assert(text@[iter.index() as int] == '\0');
            return true;
        }
    }
    false
}

impl Config {
    /// Where each service is to run: its directory, seen from `base`.
    #[must_use]
    pub fn directories(&self, base: &PathBuf) -> (directories: Vec<PathBuf>)
        ensures
            directories@.len() == self.services@.len(),
            forall|i: int|
                0 <= i < directories@.len() ==> path_bytes(#[trigger] directories@[i]) == adjoined(
                    path_bytes(*base),
                    path_bytes(self.services@[i].cwd),
                ),
    {
        let mut directories: Vec<PathBuf> = Vec::new();
        for i in 0..self.services.len()
            invariant
                directories@.len() == i,
                forall|j: int|
                    0 <= j < i ==> path_bytes(#[trigger] directories@[j]) == adjoined(
                        path_bytes(*base),
                        path_bytes(self.services@[j].cwd),
                    ),
        {
            directories.push(join(base, &self.services[i].cwd));
        }
        directories
    }

    /// Checks every service, first to last, and settles where it runs.
    ///
    /// # Errors
    /// Returns the first thing that is wrong.
    pub fn parse(self, found: &[Directory]) -> (result: Result<Self, String>)
        requires
            found@.len() == self.services@.len(),
        ensures
            match rejection(self.services@, found@) {
                Some(text) => result matches Err(error) && error@ == text,
                None => result matches Ok(config) && config.layout == self.layout
                    && config.services@.len() == self.services@.len() && forall|i: int|
                    0 <= i < self.services@.len() ==> #[trigger] config.services@[i] == settled(
                        self.services@[i],
                        found@[i],
                    ),
            },
    {
        let mut config = self;
        let ghost services = config.services@;
        if config.services.len() == 0 {
            return Err("services must contain at least one service".to_owned());
        }
        let count = config.services.len();
        for i in 0..count
            invariant
                services == self.services@,
                count == services.len() == config.services@.len() == found@.len(),
                count > 0,
                config.layout == self.layout,
                first_fault(services, found@, i as int) is None,
                forall|j: int|
                    0 <= j < i ==> #[trigger] config.services@[j] == settled(
                        services[j],
                        found@[j],
                    ),
                forall|j: int| i <= j < count ==> #[trigger] config.services@[j] == services[j],
        {
            proof {
                if first_fault(services, found@, i + 1) is Some {
                    first_fault_is_lasting(services, found@, i + 1, count as int);
                }
            }
            let service = &config.services[i];
            if is_blank(service.name.as_str()) || contains_control(service.name.as_str()) {
                return Err(
                    "service names must be nonempty and contain no control characters".to_owned(),
                );
            }
            for j in 0..i
                invariant
                    i < count,
                    count == services.len() == config.services@.len(),
                    service.name == services[i as int].name,
                    forall|k: int|
                        0 <= k < i ==> #[trigger] config.services@[k].name == services[k].name,
                    forall|k: int|
                        0 <= k < j ==> #[trigger] services[k].name@ != services[i as int].name@,
                    !(blank(service.name@) || has_control(service.name@)),
                    services == self.services@,
                    found@.len() == count,
                    count > 0,
                    fault(services, i as int, found@[i as int]) is Some ==> rejection(
                        services,
                        found@,
                    ) == fault(services, i as int, found@[i as int]),
            {
                assert(config.services@[j as int].name == services[j as int].name);
                if config.services[j].name == service.name {
                    let mut error = "duplicate service name: ".to_owned();
                    error.push_str(service.name.as_str());
                    assert(services[j as int].name@ == services[i as int].name@);
                    return Err(error);
                }
            }
            if is_blank(service.cmd.as_str()) || contains_nul(service.cmd.as_str()) {
                let mut error = service.name.clone();
                error.push_str(": cmd must be nonempty and contain no NUL bytes");
                return Err(error);
            }
            let cwd = match &found[i] {
                Directory::Found(path) => path.clone(),
                Directory::NotDirectory => {
                    let mut error = service.name.clone();
                    error.push_str(": cwd is not a directory");
                    return Err(error);
                },
                Directory::Invalid { directory, error } => {
                    let mut text = service.name.clone();
                    text.push_str(": invalid cwd ");
                    text.push_str(directory.as_str());
                    text.push_str(": ");
                    text.push_str(error.as_str());
                    return Err(text);
                },
            };
            config.services[i].cwd = cwd;
        }
        Ok(config)
    }
}

/// Services are accepted just when there is one and nothing is wrong with any.
pub proof fn accepted_just_when_nothing_is_wrong(services: Seq<Service>, found: Seq<Directory>)
    ensures
        (rejection(services, found) is None) == (services.len() > 0 && forall|i: int|
            0 <= i < services.len() ==> fault(services, i, #[trigger] found[i]) is None),
{
    nothing_wrong_upto(services, found, services.len() as int);
}

proof fn nothing_wrong_upto(services: Seq<Service>, found: Seq<Directory>, upto: int)
    ensures
        (first_fault(services, found, upto) is None) == (forall|i: int|
            0 <= i < upto ==> fault(services, i, #[trigger] found[i]) is None),
    decreases upto,
{
    if upto > 0 {
        nothing_wrong_upto(services, found, upto - 1);
        if first_fault(services, found, upto) is Some {
            if fault(services, upto - 1, found[upto - 1]) is None {
                assert(first_fault(services, found, upto - 1) is Some);
            }
        }
    }
}

/// What holds of all services that are accepted: their names are not blank,
/// free of control characters and unique, their commands are not blank and free
/// of NUL, and the directories that they run in were found.
pub proof fn accepted_services_are_sound(services: Seq<Service>, found: Seq<Directory>)
    requires
        rejection(services, found) is None,
    ensures
        services.len() > 0,
        forall|i: int| 0 <= i < services.len() ==> sound(#[trigger] services[i], found[i]),
        forall|i: int, j: int|
            0 <= i < j < services.len() ==> #[trigger] services[i].name@
                != #[trigger] services[j].name@,
{
    accepted_just_when_nothing_is_wrong(services, found);
    assert forall|i: int| 0 <= i < services.len() implies sound(
        #[trigger] services[i],
        found[i],
    ) by {
        assert(fault(services, i, found[i]) is None);
    }
    assert forall|i: int, j: int| 0 <= i < j < services.len() implies #[trigger] services[i].name@
        != #[trigger] services[j].name@ by {
        assert(fault(services, j, found[j]) is None);
    }
}

/// The service on its own is in order.
pub open spec fn sound(service: Service, found: Directory) -> bool {
    &&& !blank(service.name@) && !has_control(service.name@)
    &&& !blank(service.cmd@) && !service.cmd@.contains('\0')
    &&& found is Found
}

// ---- What is accepted, and what is said ----

/// The service is in order, among others and with what was found for it: a name
/// with a character that is no white space and without control characters, which
/// none before it has, a command with a character that is no white space and
/// without NUL, and a directory.
pub open spec fn acceptable(services: Seq<Service>, index: int, found: Directory) -> bool {
    let service = services[index];
    &&& exists|i: int| 0 <= i < service.name@.len() && !white_space(#[trigger] service.name@[i])
    &&& forall|i: int| 0 <= i < service.name@.len() ==> !control(#[trigger] service.name@[i])
    &&& forall|j: int| 0 <= j < index ==> (#[trigger] services[j]).name@ != service.name@
    &&& exists|i: int| 0 <= i < service.cmd@.len() && !white_space(#[trigger] service.cmd@[i])
    &&& forall|i: int| 0 <= i < service.cmd@.len() ==> #[trigger] service.cmd@[i] != '\0'
    &&& found is Found
}

proof fn faultless_is_acceptable(services: Seq<Service>, index: int, found: Directory)
    ensures
        (fault(services, index, found) is None) == acceptable(services, index, found),
{
    let service = services[index];
    assert(service.cmd@.contains('\0') == !(forall|i: int|
        0 <= i < service.cmd@.len() ==> #[trigger] service.cmd@[i] != '\0'));
}

/// A configuration is accepted just when it has a service and every one of them is
/// in order.
pub proof fn just_what_is_in_order_is_accepted(services: Seq<Service>, found: Seq<Directory>)
    ensures
        (rejection(services, found) is None) == (services.len() > 0 && forall|i: int|
            0 <= i < services.len() ==> acceptable(services, i, #[trigger] found[i])),
{
    accepted_just_when_nothing_is_wrong(services, found);
    assert forall|i: int| 0 <= i < services.len() implies (fault(services, i, #[trigger] found[i])
        is None) == acceptable(services, i, found[i]) by {
        faultless_is_acceptable(services, i, found[i]);
    }
}

/// A configuration without services is rejected for that.
pub proof fn there_must_be_a_service(found: Seq<Directory>)
    ensures
        rejection(Seq::empty(), found) == Some("services must contain at least one service"@),
{
}

/// What is said is the first thing wrong with the first service that is not in
/// order: its name, a name that was there before, its command, or its directory.
pub proof fn the_first_fault_is_told(services: Seq<Service>, found: Seq<Directory>, index: int)
    requires
        0 <= index < services.len(),
        forall|i: int| 0 <= i < index ==> acceptable(services, i, #[trigger] found[i]),
    ensures
        ({
            let service = services[index];
            let name = service.name@;
            let unnamed = (forall|i: int|
                0 <= i < name.len() ==> white_space(#[trigger] name[i])) || exists|i: int|
                0 <= i < name.len() && control(#[trigger] name[i]);
            let taken = exists|j: int|
                0 <= j < index && (#[trigger] services[j]).name@ == name;
            let idle = (forall|i: int|
                0 <= i < service.cmd@.len() ==> white_space(#[trigger] service.cmd@[i]))
                || exists|i: int|
                0 <= i < service.cmd@.len() && #[trigger] service.cmd@[i] == '\0';
            let told = rejection(services, found);
            &&& unnamed ==> told == Some(
                "service names must be nonempty and contain no control characters"@,
            )
            &&& !unnamed && taken ==> told == Some("duplicate service name: "@ + name)
            &&& !unnamed && !taken && idle ==> told == Some(
                name + ": cmd must be nonempty and contain no NUL bytes"@,
            )
            &&& !unnamed && !taken && !idle && found[index] is NotDirectory ==> told == Some(
                name + ": cwd is not a directory"@,
            )
            &&& !unnamed && !taken && !idle && found[index] is Invalid ==> told == Some(
                name + ": invalid cwd "@ + found[index]->directory@ + ": "@ + found[index]->error@,
            )
        }),
{
    assert forall|i: int| 0 <= i < index implies fault(services, i, #[trigger] found[i])
        is None by {
        faultless_is_acceptable(services, i, found[i]);
    }
    nothing_wrong_upto(services, found, index);
    if fault(services, index, found[index]) is Some {
        assert(first_fault(services, found, index + 1) == fault(services, index, found[index]));
        first_fault_is_lasting(services, found, index + 1, services.len() as int);
    }
    let service = services[index];
    assert(service.cmd@.contains('\0') == exists|i: int|
        0 <= i < service.cmd@.len() && #[trigger] service.cmd@[i] == '\0');
}

/// A service that is accepted runs where its directory was found, and is
/// otherwise as it was configured.
pub proof fn accepted_services_are_as_configured(service: Service, directory: PathBuf)
    ensures
        settled(service, Directory::Found(directory)) == (Service {
            name: service.name,
            cmd: service.cmd,
            cwd: directory,
            autostart: service.autostart,
            hide_stderr: service.hide_stderr,
        }),
{
}

/// A relative directory is below the base, an absolute one is itself, and one that
/// is left out is the base.
pub proof fn relative_directories_lie_below_the_base(base: Seq<u8>, path: Seq<u8>)
    ensures
        path.len() > 0 && path[0] == 47 ==> adjoined(base, path) == path,
        path.len() == 0 || path[0] != 47 ==> {
            let whole = adjoined(base, path);
            &&& base.is_prefix_of(whole)
            &&& path.is_suffix_of(whole)
            &&& base.len() == 0 || base.last() == 47 ==> whole.len() == base.len() + path.len()
            &&& base.len() > 0 && base.last() != 47 ==> whole.len() == base.len() + 1 + path.len()
                && whole[base.len() as int] == 47
        },
{
}

/// Among the characters of ASCII, white space is the space and what moves on by a
/// tab or a line, and control characters are those that cannot be printed.
pub proof fn ascii_is_told_apart(c: char)
    requires
        c <= '\u{7f}',
    ensures
        white_space(c) == (c == ' ' || c == '\t' || c == '\n' || c == '\r' || c == '\u{b}' || c
            == '\u{c}'),
        control(c) == !(' ' <= c <= '~'),
{
}

} // verus!

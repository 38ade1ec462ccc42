//! The access rights of a mapped page, independent of the page-table format.

use vstd::prelude::*;

verus! {

/// Collects access rights one by one. Everything starts switched off.
pub struct PermissionsBuilder {
    pub readable: bool,
    pub writable: bool,
    pub executable: bool,
    pub user_accessible: bool,
    pub globally_accessible: bool,
}

impl PermissionsBuilder {
    /// Grants read access.
    pub fn readable(self) -> (builder: Self)
        ensures
            builder == (PermissionsBuilder { readable: true, ..self }),
    {
        let mut builder = self;
        builder.readable = true;
        builder
    }

    /// Grants write access.
    pub fn writable(self) -> (builder: Self)
        ensures
            builder == (PermissionsBuilder { writable: true, ..self }),
    {
        let mut builder = self;
        builder.writable = true;
        builder
    }

    /// Grants instruction fetch.
    pub fn executable(self) -> (builder: Self)
        ensures
            builder == (PermissionsBuilder { executable: true, ..self }),
    {
        let mut builder = self;
        builder.executable = true;
        builder
    }

    /// Opens the page to user mode.
    pub fn user_accessible(self) -> (builder: Self)
        ensures
            builder == (PermissionsBuilder { user_accessible: true, ..self }),
    {
        let mut builder = self;
        builder.user_accessible = true;
        builder
    }

    /// Shares the mapping with all address spaces.
    pub fn globally_accessible(self) -> (builder: Self)
        ensures
            builder == (PermissionsBuilder { globally_accessible: true, ..self }),
    {
        let mut builder = self;
        builder.globally_accessible = true;
        builder
    }

    /// The permissions collected so far.
    pub fn build(self) -> (permissions: Permissions)
        ensures
            permissions == (Permissions {
                readable: self.readable,
                writable: self.writable,
                executable: self.executable,
                user_accessible: self.user_accessible,
                globally_accessible: self.globally_accessible,
            }),
    {
        Permissions {
            readable: self.readable,
            writable: self.writable,
            executable: self.executable,
            user_accessible: self.user_accessible,
            globally_accessible: self.globally_accessible,
        }
    }
}

impl Default for PermissionsBuilder {
    /// A builder that has granted nothing.
    fn default() -> (builder: Self)
        ensures
            builder == (PermissionsBuilder {
                readable: false,
                writable: false,
                executable: false,
                user_accessible: false,
                globally_accessible: false,
            }),
    {
        PermissionsBuilder {
            readable: false,
            writable: false,
            executable: false,
            user_accessible: false,
            globally_accessible: false,
        }
    }
}

/// The access rights of a page that is mapped into an address space.
#[derive(Clone, Copy, PartialEq, Eq, Structural, Debug)]
pub struct Permissions {
    /// Whether the page can be read.
    pub readable: bool,
    /// Whether the page can be written.
    pub writable: bool,
    /// Whether instructions can be fetched from the page.
    pub executable: bool,
    /// Whether user mode can reach the page, or the kernel alone.
    pub user_accessible: bool,
    /// Whether the mapping is shared by all address spaces.
    pub globally_accessible: bool,
}

impl Permissions {
    /// The permissions of an ordinary user page: readable and open to user
    /// mode, nothing more.
    pub fn new() -> (permissions: Self)
        ensures
            permissions == (Permissions {
                readable: true,
                writable: false,
                executable: false,
                user_accessible: true,
                globally_accessible: false,
            }),
    {
        Permissions {
            readable: true,
            writable: false,
            executable: false,
            user_accessible: true,
            globally_accessible: false,
        }
    }

    /// A builder that has granted nothing yet.
    pub fn builder() -> (builder: PermissionsBuilder)
        ensures
            builder == (PermissionsBuilder {
                readable: false,
                writable: false,
                executable: false,
                user_accessible: false,
                globally_accessible: false,
            }),
    {
        PermissionsBuilder::default()
    }

    /// Whether a page-table entry with these permissions is a leaf: SV39
    /// reads an entry without R, W and X as a pointer to a table.
    pub open spec fn grants_access(self) -> bool {
        self.readable || self.writable || self.executable
    }

    /// Whether a page can be mapped with these permissions: they grant
    /// one of read, write and execute at least.
    pub fn can_map(&self) -> (ok: bool)
        ensures
            ok == self.grants_access(),
    {
        self.readable || self.writable || self.executable
    }

    /// The permissions as text: scope, mode and the three access letters.
    pub fn describe(&self) -> (text: Vec<u8>)
        ensures
            text@ == describe_spec(*self),
    {
        let mut text: Vec<u8> = Vec::new();
        if self.globally_accessible {
            push_all(&mut text, &[103u8, 108, 111, 98, 97, 108, 108, 121]);
        } else {
            push_all(&mut text, &[108u8, 111, 99, 97, 108, 108, 121]);
        }
        push_all(&mut text, &[32u8, 45, 32]);
        if self.user_accessible {
            push_all(&mut text, &[117u8, 115, 101, 114]);
        } else {
            push_all(&mut text, &[107u8, 101, 114, 110, 101, 108]);
        }
        push_all(&mut text, &[32u8, 45, 32, 60]);
        text.push(if self.readable { 114u8 } else { 45u8 });
        text.push(if self.writable { 119u8 } else { 45u8 });
        text.push(if self.executable { 120u8 } else { 45u8 });
        text.push(62u8);
        text
    }
}

/// The text that stands for a set of permissions, in ASCII: `globally` or
/// `locally`, `user` or `kernel`, and `r`, `w`, `x` or a dash for each.
pub open spec fn describe_spec(permissions: Permissions) -> Seq<u8> {
    (if permissions.globally_accessible {
        seq![103u8, 108, 111, 98, 97, 108, 108, 121]
    } else {
        seq![108u8, 111, 99, 97, 108, 108, 121]
    }) + seq![32u8, 45, 32] + (if permissions.user_accessible {
        seq![117u8, 115, 101, 114]
    } else {
        seq![107u8, 101, 114, 110, 101, 108]
    }) + seq![32u8, 45, 32, 60] + seq![
        if permissions.readable { 114u8 } else { 45u8 },
        if permissions.writable { 119u8 } else { 45u8 },
        if permissions.executable { 120u8 } else { 45u8 },
        62u8,
    ]
}

/// Appends `bytes` to `text`.
pub fn push_all(text: &mut Vec<u8>, bytes: &[u8])
    ensures
        final(text)@ == old(text)@ + bytes@,
{
    let mut i: usize = 0;
    while i < bytes.len()
        invariant
            i <= bytes.len(),
            text@ == old(text)@ + bytes@.subrange(0, i as int),
        decreases bytes.len() - i,
    {
        text.push(bytes[i]);
        i += 1;
    }
    assert(bytes@.subrange(0, bytes.len() as int) == bytes@);
}

impl Default for Permissions {
    /// The permissions of an ordinary user page.
    fn default() -> (permissions: Self)
        ensures
            permissions == (Permissions {
                readable: true,
                writable: false,
                executable: false,
                user_accessible: true,
                globally_accessible: false,
            }),
    {
        Self::new()
    }
}

} // verus!

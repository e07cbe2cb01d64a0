//! The plugin-facing side of the Hachimi host: the API table it hands a
//! plugin at load, and the handles the plugin keeps.

use vstd::prelude::*;

verus! {

/// The plugin API version this plugin is built against; a host reporting an
/// older one is refused.
pub const VERSION: i32 = 1;

/// Whether a host reporting `version` can load this plugin.
pub fn host_version_supported(version: i32) -> (r: bool)
    ensures
        r == (version >= VERSION),
{
    version >= VERSION
}

/// What plugin initialisation reports to the host.
#[derive(Clone, Copy, PartialEq, Eq, Structural)]
pub enum InitResult {
    Error,
    /// The plugin loaded (the host's `Ok`).
    Success,
}

/// Severity of a message sent to the host's log.
#[derive(Clone, Copy, PartialEq, Eq, Structural)]
pub enum LogLevel {
    Error,
    Warn,
    Info,
    Debug,
    Trace,
}

impl LogLevel {
    /// The number the host's `log` entry takes for this level (1 for
    /// `Error` up to 5 for `Trace`).
    pub fn to_raw(&self) -> (r: i32)
        ensures
            1 <= r <= 5,
            (*self == LogLevel::Error) <==> r == 1,
            (*self == LogLevel::Warn) <==> r == 2,
            (*self == LogLevel::Info) <==> r == 3,
            (*self == LogLevel::Debug) <==> r == 4,
            (*self == LogLevel::Trace) <==> r == 5,
    {
        match self {
            LogLevel::Error => 1,
            LogLevel::Warn => 2,
            LogLevel::Info => 3,
            LogLevel::Debug => 4,
            LogLevel::Trace => 5,
        }
    }
}

/// The host's API table: the address of each entry point it exports, in the
/// host's order.
#[derive(Clone, Copy)]
pub struct Vtable {
    pub hachimi_instance: usize,
    pub hachimi_get_interceptor: usize,
    pub interceptor_hook: usize,
    pub interceptor_hook_vtable: usize,
    pub interceptor_get_trampoline_addr: usize,
    pub interceptor_unhook: usize,
    pub il2cpp_resolve_symbol: usize,
    pub il2cpp_get_assembly_image: usize,
    pub il2cpp_get_class: usize,
    pub il2cpp_get_method: usize,
    pub il2cpp_get_method_overload: usize,
    pub il2cpp_get_method_addr: usize,
    pub il2cpp_get_method_overload_addr: usize,
    pub il2cpp_get_method_cached: usize,
    pub il2cpp_get_method_addr_cached: usize,
    pub il2cpp_find_nested_class: usize,
    pub il2cpp_resolve_icall: usize,
    pub il2cpp_class_get_methods: usize,
    pub il2cpp_get_field_from_name: usize,
    pub il2cpp_get_field_value: usize,
    pub il2cpp_set_field_value: usize,
    pub il2cpp_get_static_field_value: usize,
    pub il2cpp_set_static_field_value: usize,
    pub il2cpp_object_new: usize,
    pub il2cpp_unbox: usize,
    pub il2cpp_get_main_thread: usize,
    pub il2cpp_get_attached_threads: usize,
    pub il2cpp_schedule_on_thread: usize,
    pub il2cpp_create_array: usize,
    pub il2cpp_get_singleton_like_instance: usize,
    pub log: usize,
}

/// The host API as handed to the plugin: a copy of the host's table and the
/// API version the host reports.
#[derive(Clone, Copy)]
pub struct HachimiApi {
    vtable: Vtable,
    version: i32,
}

impl HachimiApi {
    /// The API made of a copy of the host's table and its version.
    pub fn new(vtable: Vtable, version: i32) -> (r: HachimiApi)
        ensures
            r.spec_vtable() == vtable,
            r.spec_version() == version,
    {
        HachimiApi { vtable, version }
    }

    pub closed spec fn spec_vtable(&self) -> Vtable {
        self.vtable
    }

    pub closed spec fn spec_version(&self) -> i32 {
        self.version
    }

    /// The host's table.
    pub fn vtable(&self) -> (r: &Vtable)
        ensures
            *r == self.spec_vtable(),
    {
        &self.vtable
    }

    /// The API version the host reported.
    pub fn version(&self) -> (r: i32)
        ensures
            r == self.spec_version(),
    {
        self.version
    }

    /// The IL2CPP part of the API.
    pub fn il2cpp(&self) -> (r: HachimiIl2CppApi<'_>)
        ensures
            r.0 == self,
    {
        HachimiIl2CppApi(self)
    }
}

/// The IL2CPP entry points of the host API.
#[derive(Clone, Copy)]
pub struct HachimiIl2CppApi<'a>(pub &'a HachimiApi);

/// The host's Hachimi instance, held by its address.
#[derive(Clone, Copy)]
pub struct Hachimi<'a> {
    pub api: &'a HachimiApi,
    pub ptr: usize,
}

impl<'a> Hachimi<'a> {
    /// The instance at address `ptr`.
    pub fn from_raw(api: &'a HachimiApi, ptr: usize) -> (r: Hachimi<'a>)
        ensures
            r.api == api,
            r.ptr == ptr,
    {
        Hachimi { api, ptr }
    }

    /// The instance's address.
    pub fn as_raw(&self) -> (r: usize)
        ensures
            r == self.ptr,
    {
        self.ptr
    }
}

/// The host's function interceptor, held by its address.
#[derive(Clone, Copy)]
pub struct Interceptor<'a> {
    pub api: &'a HachimiApi,
    pub ptr: usize,
}

impl<'a> Interceptor<'a> {
    /// The interceptor at address `ptr`.
    pub fn from_raw(api: &'a HachimiApi, ptr: usize) -> (r: Interceptor<'a>)
        ensures
            r.api == api,
            r.ptr == ptr,
    {
        Interceptor { api, ptr }
    }

    /// The interceptor's address.
    pub fn as_raw(&self) -> (r: usize)
        ensures
            r == self.ptr,
    {
        self.ptr
    }
}

/// Whether an address the host returned stands for a value: the host
/// reports "none" (a failed hook, say) as address 0.
pub fn non_null(addr: usize) -> (r: Option<usize>)
    ensures
        r == (if addr == 0 { None } else { Some(addr) }),
{
    if addr == 0 {
        None
    } else {
        Some(addr)
    }
}

/// Whether the search of the assemblies may have passed the `k`-th one: it
/// is null, its image is null, or its image holds no such class, as the two
/// calls can report it.
pub open spec fn assembly_passed<F: Fn(usize) -> usize, G: Fn(usize) -> usize>(image_of: F, class_in: G, assembly: usize) -> bool {
    assembly == 0 || exists|img: usize| #[trigger] call_ensures(image_of, (assembly,), img)
        && (img == 0 || call_ensures(class_in, (img,), 0usize))
}

/// Looks for a class through the assemblies in order: each non-null assembly
/// is asked for its image (`image_of`), each non-null image for the class
/// (`class_in`), and the first non-null class ends the search. Returns the
/// class (0 when none is found) and the index of the assembly it came from
/// (the number of assemblies when none).
pub fn search_assemblies<F: Fn(usize) -> usize, G: Fn(usize) -> usize>(assemblies: &[usize], image_of: F, class_in: G) -> (r: (usize, usize))
    requires
        forall|a: usize| a != 0 ==> call_requires(image_of, (a,)),
        forall|img: usize| img != 0 ==> call_requires(class_in, (img,)),
    ensures
        r.1 <= assemblies@.len(),
        forall|k: int| 0 <= k < r.1 ==> assembly_passed(image_of, class_in, #[trigger] assemblies@[k]),
        r.1 == assemblies@.len() ==> r.0 == 0,
        r.1 < assemblies@.len() ==> r.0 != 0 && assemblies@[r.1 as int] != 0
            && exists|img: usize| img != 0 && #[trigger] call_ensures(image_of, (assemblies@[r.1 as int],), img)
                && call_ensures(class_in, (img,), r.0),
{
    let n = assemblies.len();
    let mut i: usize = 0;
    while i < n
        invariant
            0 <= i <= n,
            n == assemblies@.len(),
            forall|a: usize| a != 0 ==> call_requires(image_of, (a,)),
            forall|img: usize| img != 0 ==> call_requires(class_in, (img,)),
            forall|k: int| 0 <= k < i ==> assembly_passed(image_of, class_in, #[trigger] assemblies@[k]),
        decreases n - i,
    {
        let assembly = assemblies[i];
        if assembly != 0 {
            let image = image_of(assembly);
            if image != 0 {
                let class = class_in(image);
                if class != 0 {
                    return (class, i);
                }
            }
            assert(assembly_passed(image_of, class_in, assembly));
        }
        i = i + 1;
    }
    (0, n)
}

} // verus!

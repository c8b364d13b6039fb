use vstd::prelude::*;
use crate::string_kv::StringKeyMap;

verus! {

/// A request to import a class, as handed on to the correction engine.
#[derive(Clone, PartialEq, Debug)]
pub struct ClassImportRequest {
    pub class_name: String,
    pub exact_only: bool,
    pub src_fn: String,
    pub priority: i32,
}

/// A request to match a class by suffix; the scala extraction produces
/// none of these.
#[derive(Clone, PartialEq, Debug)]
pub struct ClassSuffixMatch {
    pub suffix: String,
    pub src_fn: String,
}

/// Which selector an import statement ends in.
#[derive(Clone, PartialEq, Debug)]
pub enum SelectorType {
    SelectorList(Vec<String>),
    WildcardSelector,
    NoSelector,
}

/// One import statement of a parsed source file.
#[derive(Clone, PartialEq, Debug)]
pub struct Import {
    pub prefix_section: String,
    pub suffix: SelectorType,
}

/// What the source parser read out of one file: its import statements.
#[derive(Clone, PartialEq, Debug)]
pub struct ParsedFile {
    pub imports: Vec<Import>,
}

/// A class-import request raised by one scala error extractor, still
/// naming the source file and extractor it came from.
#[derive(PartialEq, Debug)]
pub struct ScalaClassImportRequest {
    pub src_file_name: String,
    pub class_name: String,
    pub exact_only: bool,
    pub src_fn: &'static str,
    pub priority: i32,
}

impl Clone for ScalaClassImportRequest {
    fn clone(&self) -> (res: Self)
        ensures
            res == *self,
    {
        ScalaClassImportRequest {
            src_file_name: self.src_file_name.clone(),
            class_name: self.class_name.clone(),
            exact_only: self.exact_only,
            src_fn: self.src_fn,
            priority: self.priority,
        }
    }
}

/// Whether `r` is the general-purpose form of `e`: same class, same
/// flags, the extractor name qualified with the language.
pub open spec fn converted_matches(e: ScalaClassImportRequest, r: ClassImportRequest) -> bool {
    &&& r.class_name == e.class_name
    &&& r.exact_only == e.exact_only
    &&& r.priority == e.priority
    &&& r.src_fn@ == "scala::"@ + e.src_fn@
}

impl ScalaClassImportRequest {
    /// The general-purpose import request for this extraction hit.
    pub fn to_class_import_request(self) -> (r: ClassImportRequest)
        ensures
            converted_matches(self, r),
    {
        let mut qualified: String = "scala::".to_owned();
        qualified.append(self.src_fn);
        ClassImportRequest {
            class_name: self.class_name,
            exact_only: self.exact_only,
            src_fn: qualified,
            priority: self.priority,
        }
    }
}

/// The cache of parsed source files, keyed by path. Reading a file and
/// parsing it happen outside; `store_file` records the result and
/// `load_file` answers from the recorded entries alone.
pub struct FileParseCache {
    file_parse_cache: StringKeyMap<ParsedFile>,
}

impl View for FileParseCache {
    type V = Map<Seq<char>, ParsedFile>;

    closed spec fn view(&self) -> Map<Seq<char>, ParsedFile> {
        self.file_parse_cache@
    }
}

impl FileParseCache {
    pub fn new() -> (r: Self)
        ensures
            r@ == Map::<Seq<char>, ParsedFile>::empty(),
    {
        FileParseCache { file_parse_cache: StringKeyMap::new() }
    }

    /// A cache holding exactly one parsed file.
    pub fn init_from_par(key: String, v: ParsedFile) -> (r: Self)
        ensures
            r@ == Map::<Seq<char>, ParsedFile>::empty().insert(key@, v),
    {
        let mut map: StringKeyMap<ParsedFile> = StringKeyMap::new();
        map.insert(key, v);
        FileParseCache { file_parse_cache: map }
    }

    /// Records the parse of one file.
    pub fn store_file(&mut self, file_path: String, parsed: ParsedFile)
        ensures
            final(self)@ == old(self)@.insert(file_path@, parsed),
    {
        self.file_parse_cache.insert(file_path, parsed);
    }

    /// The recorded parse of `file_path`, if any.
    pub fn load_file(&mut self, file_path: &str) -> (r: Option<&ParsedFile>)
        ensures
            final(self)@ == old(self)@,
            match r {
                Some(p) => final(self)@.contains_key(file_path@) && *p == final(self)@[file_path@],
                None => !final(self)@.contains_key(file_path@),
            },
    {
        let key: String = file_path.to_owned();
        self.file_parse_cache.get(&key)
    }
}

/// The prefixes of the wildcard imports of a file, in order.
pub open spec fn wildcard_prefixes(imports: Seq<Import>) -> Seq<String> {
    imports.filter(|im: Import| im.suffix is WildcardSelector).map_values(
        |im: Import| im.prefix_section,
    )
}

/// Whether `r` asks for `e`'s class under one of the file's wildcard
/// prefixes.
pub open spec fn wildcard_matches(
    e: ScalaClassImportRequest,
    prefix: String,
    r: ClassImportRequest,
) -> bool {
    &&& r.class_name@ == prefix@ + "."@ + e.class_name@
    &&& r.exact_only == e.exact_only
    &&& r.priority == e.priority
    &&& r.src_fn@ == "scala::"@ + e.src_fn@
}

/// The requests one extraction hit contributes: when its source file is
/// cached, one request per wildcard import of that file, then the hit
/// itself; otherwise the hit alone.
pub open spec fn block_ok(
    cache: Map<Seq<char>, ParsedFile>,
    e: ScalaClassImportRequest,
    out: Seq<ClassImportRequest>,
) -> bool {
    if cache.contains_key(e.src_file_name@) {
        let prefixes = wildcard_prefixes(cache[e.src_file_name@].imports@);
        &&& out.len() == prefixes.len() + 1
        &&& (forall|k: int| 0 <= k < prefixes.len() ==> wildcard_matches(e, prefixes[k], #[trigger] out[k]))
        &&& converted_matches(e, out.last())
    } else {
        out.len() == 1 && converted_matches(e, out[0])
    }
}

/// The whole extraction: the candidates' blocks, concatenated in order.
pub open spec fn extract_ok(
    cache: Map<Seq<char>, ParsedFile>,
    candidates: Seq<ScalaClassImportRequest>,
    out: Seq<ClassImportRequest>,
) -> bool
    decreases candidates.len(),
{
    if candidates.len() == 0 {
        out.len() == 0
    } else {
        exists|split: int|
            0 <= split <= out.len() && extract_ok(cache, candidates.drop_last(), out.take(split))
                && block_ok(cache, candidates.last(), #[trigger] out.skip(split))
    }
}

/// Expands one extraction hit against the cached parse of its source
/// file: a request per wildcard import, then the hit itself.
#[verifier::loop_isolation(false)]
fn expand_candidate(
    e: &ScalaClassImportRequest,
    cache: &mut FileParseCache,
    out: &mut Vec<ClassImportRequest>,
)
    ensures
        final(cache)@ == old(cache)@,
        final(out)@.len() >= old(out)@.len(),
        final(out)@.take(old(out)@.len() as int) == old(out)@,
        block_ok(old(cache)@, *e, final(out)@.skip(old(out)@.len() as int)),
{
    let ghost pre = old(out)@;
    match cache.load_file(e.src_file_name.as_str()) {
        Some(file_data) => {
            let ghost imports = file_data.imports@;
            let ghost prefixes = wildcard_prefixes(imports);
            let mut j: usize = 0;
            proof {
                assert(imports.take(0).filter(|im: Import| im.suffix is WildcardSelector)
                    =~= Seq::<Import>::empty());
                assert(wildcard_prefixes(imports.take(0)) =~= Seq::<String>::empty());
                assert(out@.skip(pre.len() as int) =~= Seq::<ClassImportRequest>::empty());
                assert(out@.take(pre.len() as int) =~= pre);
            }
            while j < file_data.imports.len()
                invariant
                    j <= imports.len(),
                    out@.len() == pre.len() + wildcard_prefixes(imports.take(j as int)).len(),
                    out@.take(pre.len() as int) == pre,
                    forall|k: int|
                        0 <= k < wildcard_prefixes(imports.take(j as int)).len()
                            ==> wildcard_matches(
                            *e,
                            wildcard_prefixes(imports.take(j as int))[k],
                            #[trigger] out@[pre.len() + k],
                        ),
                decreases imports.len() - j,
            {
                proof {
                    crate::hydrated_stream::lemma_filter_take_succ(
                        imports,
                        |im: Import| im.suffix is WildcardSelector,
                        j as int,
                    );
                    assert(imports.take(j as int).push(imports[j as int]) =~= imports.take(
                        j as int + 1,
                    ));
                }
                let is_wildcard: bool = match &file_data.imports[j].suffix {
                    SelectorType::WildcardSelector => true,
                    _ => false,
                };
                if is_wildcard {
                    let mut class_name: String = file_data.imports[j].prefix_section.clone();
                    class_name.append(".");
                    class_name.append(e.class_name.as_str());
                    let ghost out0 = out@;
                    out.push(
                        ClassImportRequest {
                            class_name,
                            exact_only: e.exact_only,
                            src_fn: {
                                let mut q: String = "scala::".to_owned();
                                q.append(e.src_fn);
                                q
                            },
                            priority: e.priority,
                        },
                    );
                    proof {
                        assert(wildcard_prefixes(imports.take(j as int + 1)) =~= wildcard_prefixes(
                            imports.take(j as int),
                        ).push(imports[j as int].prefix_section));
                        assert(out@.take(pre.len() as int) =~= out0.take(pre.len() as int));
                    }
                } else {
                    proof {
                        assert(wildcard_prefixes(imports.take(j as int + 1)) =~= wildcard_prefixes(
                            imports.take(j as int),
                        ));
                    }
                }
                j = j + 1;
            }
            proof {
                assert(imports.take(imports.len() as int) =~= imports);
            }
            let converted = ScalaClassImportRequest {
                src_file_name: e.src_file_name.clone(),
                class_name: e.class_name.clone(),
                exact_only: e.exact_only,
                src_fn: e.src_fn,
                priority: e.priority,
            }.to_class_import_request();
            let ghost out1 = out@;
            out.push(converted);
            proof {
                assert(out@.take(pre.len() as int) =~= out1.take(pre.len() as int));
                let tail = out@.skip(pre.len() as int);
                assert(tail.len() == prefixes.len() + 1);
                assert(tail.last() == out@.last());
                assert(forall|k: int|
                    0 <= k < prefixes.len() ==> #[trigger] tail[k] == out@[pre.len() + k]);
            }
        },
        None => {
            let converted = ScalaClassImportRequest {
                src_file_name: e.src_file_name.clone(),
                class_name: e.class_name.clone(),
                exact_only: e.exact_only,
                src_fn: e.src_fn,
                priority: e.priority,
            }.to_class_import_request();
            let ghost out1 = out@;
            out.push(converted);
            proof {
                assert(out@.take(pre.len() as int) =~= out1.take(pre.len() as int));
                assert(out@.skip(pre.len() as int) =~= seq![out@.last()]);
            }
        },
    }
}

/// Expands every extraction hit into its import requests: for each
/// candidate, the wildcard variants its cached source file suggests,
/// then the candidate itself, all in order.
#[verifier::loop_isolation(false)]
pub fn extract_errors(
    candidates: &Vec<ScalaClassImportRequest>,
    file_parse_cache: &mut FileParseCache,
) -> (r: Vec<ClassImportRequest>)
    ensures
        final(file_parse_cache)@ == old(file_parse_cache)@,
        extract_ok(old(file_parse_cache)@, candidates@, r@),
{
    let mut combined_vec: Vec<ClassImportRequest> = Vec::new();
    let mut i: usize = 0;
    proof {
        assert(candidates@.take(0).len() == 0);
    }
    while i < candidates.len()
        invariant
            i <= candidates@.len(),
            file_parse_cache@ == old(file_parse_cache)@,
            extract_ok(file_parse_cache@, candidates@.take(i as int), combined_vec@),
        decreases candidates@.len() - i,
    {
        let ghost pre = combined_vec@;
        expand_candidate(&candidates[i], file_parse_cache, &mut combined_vec);
        proof {
            assert(candidates@.take(i as int + 1).drop_last() =~= candidates@.take(i as int));
            assert(candidates@.take(i as int + 1).last() == candidates@[i as int]);
            assert(extract_ok(
                file_parse_cache@,
                candidates@.take(i as int + 1),
                combined_vec@,
            )) by {
                assert(0 <= pre.len() <= combined_vec@.len());
                assert(extract_ok(file_parse_cache@, candidates@.take(i as int), combined_vec@.take(
                    pre.len() as int,
                )));
                assert(block_ok(
                    file_parse_cache@,
                    candidates@[i as int],
                    combined_vec@.skip(pre.len() as int),
                ));
            }
        }
        i = i + 1;
    }
    proof {
        assert(candidates@.take(candidates@.len() as int) =~= candidates@);
    }
    combined_vec
}

/// The scala extraction raises no suffix matches.
pub fn extract_suffix_errors(_input: &str) -> (r: Vec<ClassSuffixMatch>)
    ensures
        r@.len() == 0,
{
    Vec::new()
}

} // verus!

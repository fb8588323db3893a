//! MaterialX documents: the `standard_surface` materials they define, with
//! the textures that their node graphs resolve.
//!
//! The XML is read by quick-xml, one event at a time; what each event does to
//! the state of the parse is the verified step below. Numbers stay text: the
//! colors and factors are read as numbers by the caller.

use vstd::prelude::*;

use quick_xml::events::Event;
use quick_xml::Reader;

use crate::kinds::str_eq;
use crate::text::views;

verus! {

#[verifier::external_type_specification]
#[verifier::external_body]
#[verifier::reject_recursive_types(R)]
pub struct ExXmlReader<R>(Reader<R>);

/// An event of an XML document, as the parse reads it.
pub enum XmlEvent {
    /// A start tag or an empty-element tag, with its attributes in order.
    Open { tag: String, attrs: Vec<(String, String)> },
    /// An end tag.
    Close { tag: String },
    /// Text, comments and declarations.
    Other,
    /// The end of the document, or an error that ends the reading.
    Finished,
}

/// The `k`-th event (counting from 0) that quick-xml's `Reader::read_event`
/// gives for a document, read by a reader made with `Reader::from_str` and
/// `trim_text(true)`, converted as `next_event` converts it. The events are
/// a function of the document alone.
pub uninterp spec fn xml_event_at(content: Seq<char>, k: nat) -> XmlEvent;

/// A reader positioned in a document.
pub struct XmlCursor<'a> {
    reader: Reader<&'a [u8]>,
    content: Ghost<Seq<char>>,
    read: Ghost<nat>,
}

impl<'a> XmlCursor<'a> {
    /// The document being read.
    pub closed spec fn content(&self) -> Seq<char> {
        self.content@
    }

    /// How many events have been read.
    pub closed spec fn position(&self) -> nat {
        self.read@
    }
}

/// A reader at the start of a document, trimming white space around text.
/// Calls `quick_xml::Reader::from_str` and sets `trim_text(true)` in its
/// configuration; the contract records the document and that no event has
/// been read.
#[verifier::external_body]
fn xml_reader<'a>(content: &'a str) -> (r: XmlCursor<'a>)
    ensures
        r.content() == content@,
        r.position() == 0,
{
    let mut reader = Reader::from_str(content);
    reader.config_mut().trim_text(true);
    XmlCursor { reader, content: Ghost(content@), read: Ghost(0) }
}

/// The next event of a reader.
/// Calls `quick_xml::Reader::read_event` and converts the event: start and
/// empty tags to `Open` with the tag name and the attributes that parse (a
/// repeated attribute is an error there and is left out), end tags to
/// `Close`, the end of input and errors to `Finished`, anything else to
/// `Other`. The contract names the event by the document and the number of
/// events read before it, which is one more afterwards.
#[verifier::external_body]
fn next_event(cur: &mut XmlCursor) -> (r: XmlEvent)
    ensures
        r == xml_event_at(old(cur).content(), old(cur).position()),
        final(cur).content() == old(cur).content(),
        final(cur).position() == old(cur).position() + 1,
{
    match cur.reader.read_event() {
        Ok(Event::Start(e)) | Ok(Event::Empty(e)) => XmlEvent::Open {
            tag: e.name().as_ref().to_string(),
            attrs: e.attributes().flatten().map(|a| (a.key.as_ref().to_string(), a.value.to_string())).collect(),
        },
        Ok(Event::End(e)) => XmlEvent::Close { tag: e.name().as_ref().to_string() },
        Ok(Event::Eof) | Err(_) => XmlEvent::Finished,
        Ok(_) => XmlEvent::Other,
    }
}

// ---------------------------------------------------------------------------
// The state of a parse
// ---------------------------------------------------------------------------

/// What a `standard_surface` material sets, as text.
pub struct MaterialXSurface {
    /// The last non-empty `base_color` value given without a texture.
    pub diffuse_color: Option<String>,
    /// The file that the `base_color` node graph output resolves to.
    pub diffuse_texture: Option<String>,
    /// The `metalness` values given, in order (the last that reads as a
    /// number counts).
    pub metallic_values: Vec<String>,
    /// The `specular_roughness` values given, in order (the last that reads
    /// as a number counts).
    pub roughness_values: Vec<String>,
    /// The file that the `normal` node graph output resolves to.
    pub normal_texture: Option<String>,
    /// The last non-empty `emission_color` value.
    pub emissive_color: Option<String>,
}

/// The state of a MaterialX parse.
pub struct MaterialXParser {
    /// The finished materials, in order; a later one of the same name
    /// replaces an earlier one.
    pub materials: Vec<(String, MaterialXSurface)>,
    /// The files known per node graph and node or output name; a later
    /// entry for the same pair replaces an earlier one.
    pub files: Vec<(String, String, String)>,
    pub current_nodegraph: Option<String>,
    pub current_image_node: Option<String>,
    pub current_surface: Option<(String, MaterialXSurface)>,
}

pub struct SurfaceModel {
    pub diffuse_color: Option<Seq<char>>,
    pub diffuse_texture: Option<Seq<char>>,
    pub metallic_values: Seq<Seq<char>>,
    pub roughness_values: Seq<Seq<char>>,
    pub normal_texture: Option<Seq<char>>,
    pub emissive_color: Option<Seq<char>>,
}

pub struct MtlxModel {
    pub materials: Seq<(Seq<char>, SurfaceModel)>,
    pub files: Seq<(Seq<char>, Seq<char>, Seq<char>)>,
    pub nodegraph: Option<Seq<char>>,
    pub image_node: Option<Seq<char>>,
    pub surface: Option<(Seq<char>, SurfaceModel)>,
}

pub open spec fn opt_text(o: Option<String>) -> Option<Seq<char>> {
    match o {
        Some(s) => Some(s@),
        None => None,
    }
}

pub open spec fn surface_view(s: MaterialXSurface) -> SurfaceModel {
    SurfaceModel {
        diffuse_color: opt_text(s.diffuse_color),
        diffuse_texture: opt_text(s.diffuse_texture),
        metallic_values: views(s.metallic_values@),
        roughness_values: views(s.roughness_values@),
        normal_texture: opt_text(s.normal_texture),
        emissive_color: opt_text(s.emissive_color),
    }
}

pub open spec fn materials_view(v: Seq<(String, MaterialXSurface)>) -> Seq<(Seq<char>, SurfaceModel)> {
    v.map_values(|m: (String, MaterialXSurface)| (m.0@, surface_view(m.1)))
}

pub open spec fn files_view(v: Seq<(String, String, String)>) -> Seq<(Seq<char>, Seq<char>, Seq<char>)> {
    v.map_values(|f: (String, String, String)| (f.0@, f.1@, f.2@))
}

pub open spec fn parser_view(p: MaterialXParser) -> MtlxModel {
    MtlxModel {
        materials: materials_view(p.materials@),
        files: files_view(p.files@),
        nodegraph: opt_text(p.current_nodegraph),
        image_node: opt_text(p.current_image_node),
        surface: match p.current_surface {
            Some((n, s)) => Some((n@, surface_view(s))),
            None => None,
        },
    }
}

pub open spec fn empty_surface() -> SurfaceModel {
    SurfaceModel {
        diffuse_color: None,
        diffuse_texture: None,
        metallic_values: Seq::empty(),
        roughness_values: Seq::empty(),
        normal_texture: None,
        emissive_color: None,
    }
}

pub open spec fn initial_model() -> MtlxModel {
    MtlxModel {
        materials: Seq::empty(),
        files: Seq::empty(),
        nodegraph: None,
        image_node: None,
        surface: None,
    }
}

// ---------------------------------------------------------------------------
// Specification of a step
// ---------------------------------------------------------------------------

/// The value of the first attribute named `key`.
pub open spec fn attr_lookup(attrs: Seq<(String, String)>, key: Seq<char>) -> Option<Seq<char>>
    decreases attrs.len(),
{
    if attrs.len() == 0 {
        None
    } else if attrs[0].0@ == key {
        Some(attrs[0].1@)
    } else {
        attr_lookup(attrs.drop_first(), key)
    }
}

/// The file last recorded for a node graph and a node or output name.
pub open spec fn file_lookup(files: Seq<(Seq<char>, Seq<char>, Seq<char>)>, graph: Seq<char>, name: Seq<char>) -> Option<
    Seq<char>,
>
    decreases files.len(),
{
    if files.len() == 0 {
        None
    } else if files.last().0 == graph && files.last().1 == name {
        Some(files.last().2)
    } else {
        file_lookup(files.drop_last(), graph, name)
    }
}

pub open spec fn or_empty(o: Option<Seq<char>>) -> Seq<char> {
    match o {
        Some(s) => s,
        None => Seq::empty(),
    }
}

/// The file that a node graph output named by attributes resolves to.
pub open spec fn resolved_file(files: Seq<(Seq<char>, Seq<char>, Seq<char>)>, attrs: Seq<(String, String)>) -> Option<
    Seq<char>,
> {
    match (attr_lookup(attrs, "nodegraph"@), attr_lookup(attrs, "output"@)) {
        (Some(g), Some(o)) => file_lookup(files, g, o),
        _ => None,
    }
}

/// What a standard surface input does to the surface.
pub open spec fn surface_input(s: SurfaceModel, files: Seq<(Seq<char>, Seq<char>, Seq<char>)>, attrs: Seq<(String, String)>) -> SurfaceModel {
    let name = or_empty(attr_lookup(attrs, "name"@));
    let value = or_empty(attr_lookup(attrs, "value"@));
    let linked = attr_lookup(attrs, "nodegraph"@) is Some && attr_lookup(attrs, "output"@) is Some;
    if name == "base_color"@ {
        if linked {
            match resolved_file(files, attrs) {
                Some(f) => SurfaceModel { diffuse_texture: Some(f), ..s },
                None => s,
            }
        } else if value.len() > 0 {
            SurfaceModel { diffuse_color: Some(value), ..s }
        } else {
            s
        }
    } else if name == "metalness"@ {
        SurfaceModel { metallic_values: s.metallic_values.push(value), ..s }
    } else if name == "specular_roughness"@ {
        SurfaceModel { roughness_values: s.roughness_values.push(value), ..s }
    } else if name == "emission_color"@ {
        if value.len() > 0 {
            SurfaceModel { emissive_color: Some(value), ..s }
        } else {
            s
        }
    } else if name == "normal"@ {
        match resolved_file(files, attrs) {
            Some(f) => SurfaceModel { normal_texture: Some(f), ..s },
            None => s,
        }
    } else {
        s
    }
}

/// What an `input` tag does: a `file` input of an image node inside a node
/// graph records the file, and an input inside a standard surface sets it.
pub open spec fn on_input(m: MtlxModel, attrs: Seq<(String, String)>) -> MtlxModel {
    let name = or_empty(attr_lookup(attrs, "name"@));
    let value = or_empty(attr_lookup(attrs, "value"@));
    let files = match (m.nodegraph, m.image_node) {
        (Some(g), Some(n)) => if name == "file"@ {
            m.files.push((g, n, value))
        } else {
            m.files
        },
        _ => m.files,
    };
    MtlxModel {
        files,
        surface: match m.surface {
            Some((n, s)) => Some((n, surface_input(s, files, attrs))),
            None => None,
        },
        ..m
    }
}

/// What an `output` tag inside a node graph does: the output takes the file
/// of the node it names.
pub open spec fn on_output(m: MtlxModel, attrs: Seq<(String, String)>) -> MtlxModel {
    match (m.nodegraph, attr_lookup(attrs, "name"@), attr_lookup(attrs, "nodename"@)) {
        (Some(g), Some(o), Some(n)) => match file_lookup(m.files, g, n) {
            Some(f) => MtlxModel { files: m.files.push((g, o, f)), ..m },
            None => m,
        },
        _ => m,
    }
}

/// What one event does to the state of the parse.
pub open spec fn step_model(m: MtlxModel, ev: XmlEvent) -> MtlxModel {
    match ev {
        XmlEvent::Open { tag, attrs } => if tag@ == "nodegraph"@ {
            MtlxModel { nodegraph: attr_lookup(attrs@, "name"@), ..m }
        } else if tag@ == "tiledimage"@ || tag@ == "image"@ {
            MtlxModel { image_node: attr_lookup(attrs@, "name"@), ..m }
        } else if tag@ == "input"@ {
            on_input(m, attrs@)
        } else if tag@ == "output"@ {
            on_output(m, attrs@)
        } else if tag@ == "standard_surface"@ {
            match attr_lookup(attrs@, "name"@) {
                Some(n) => MtlxModel { surface: Some((n, empty_surface())), ..m },
                None => m,
            }
        } else {
            m
        },
        XmlEvent::Close { tag } => if tag@ == "nodegraph"@ {
            MtlxModel { nodegraph: None, ..m }
        } else if tag@ == "tiledimage"@ || tag@ == "image"@ {
            MtlxModel { image_node: None, ..m }
        } else if tag@ == "standard_surface"@ {
            match m.surface {
                Some(ms) => MtlxModel { materials: m.materials.push(ms), surface: None, ..m },
                None => m,
            }
        } else {
            m
        },
        _ => m,
    }
}

/// The state after the events, up to the first `Finished`.
pub open spec fn run_events(m: MtlxModel, evs: Seq<XmlEvent>) -> MtlxModel
    decreases evs.len(),
{
    if evs.len() == 0 {
        m
    } else if evs[0] is Finished {
        m
    } else {
        run_events(step_model(m, evs[0]), evs.drop_first())
    }
}

// ---------------------------------------------------------------------------
// The step
// ---------------------------------------------------------------------------

/// The value of the first attribute named `key`.
fn attr_get(attrs: &Vec<(String, String)>, key: &str) -> (r: Option<String>)
    ensures
        opt_text(r) == attr_lookup(attrs@, key@),
{
    let mut i: usize = 0;
    assert(attrs@.skip(0) =~= attrs@);
    while i < attrs.len()
        invariant
            0 <= i <= attrs.len(),
            attr_lookup(attrs@, key@) == attr_lookup(attrs@.skip(i as int), key@),
        decreases attrs.len() - i,
    {
        assert(attrs@.skip(i as int).drop_first() =~= attrs@.skip(i + 1));
        if str_eq(attrs[i].0.as_str(), key) {
            return Some(attrs[i].1.clone());
        }
        i += 1;
    }
    None
}

/// The file last recorded for a node graph and a name.
fn file_get(files: &Vec<(String, String, String)>, graph: &str, name: &str) -> (r: Option<String>)
    ensures
        opt_text(r) == file_lookup(files_view(files@), graph@, name@),
{
    let ghost fv = files_view(files@);
    let mut i: usize = files.len();
    assert(fv.take(i as int) =~= fv);
    while i > 0
        invariant
            0 <= i <= files.len(),
            fv == files_view(files@),
            file_lookup(fv, graph@, name@) == file_lookup(fv.take(i as int), graph@, name@),
        decreases i,
    {
        assert(fv.take(i as int).drop_last() =~= fv.take(i - 1));
        let f = &files[i - 1];
        if str_eq(f.0.as_str(), graph) && str_eq(f.1.as_str(), name) {
            return Some(f.2.clone());
        }
        i -= 1;
    }
    assert(fv.take(0) =~= Seq::<(Seq<char>, Seq<char>, Seq<char>)>::empty());
    None
}

fn push_file(files: &mut Vec<(String, String, String)>, graph: String, name: String, file: String)
    ensures
        files_view(final(files)@) == files_view(old(files)@).push((graph@, name@, file@)),
{
    files.push((graph, name, file));
    assert(files_view(files@) =~= files_view(old(files)@).push((graph@, name@, file@)));
}

fn push_text(v: &mut Vec<String>, t: String)
    ensures
        views(final(v)@) == views(old(v)@).push(t@),
{
    v.push(t);
    assert(views(v@) =~= views(old(v)@).push(t@));
}

/// The file that a node graph output named by attributes resolves to.
fn resolve_file(files: &Vec<(String, String, String)>, attrs: &Vec<(String, String)>) -> (r: Option<String>)
    ensures
        opt_text(r) == resolved_file(files_view(files@), attrs@),
{
    match (attr_get(attrs, "nodegraph"), attr_get(attrs, "output")) {
        (Some(g), Some(o)) => file_get(files, g.as_str(), o.as_str()),
        _ => None,
    }
}

/// Applies a standard surface input to a surface.
fn apply_surface_input(surface: &mut MaterialXSurface, files: &Vec<(String, String, String)>, attrs: &Vec<(String, String)>)
    ensures
        surface_view(*final(surface)) == surface_input(surface_view(*old(surface)), files_view(files@), attrs@),
{
    let name = match attr_get(attrs, "name") {
        Some(n) => n,
        None => String::new(),
    };
    let value = match attr_get(attrs, "value") {
        Some(v) => v,
        None => String::new(),
    };
    let graph = attr_get(attrs, "nodegraph");
    let output = attr_get(attrs, "output");
    let linked = graph.is_some() && output.is_some();
    let n = name.as_str();
    if str_eq(n, "base_color") {
        if linked {
            match resolve_file(files, attrs) {
                Some(f) => surface.diffuse_texture = Some(f),
                None => {},
            }
        } else if !value.as_str().is_empty() {
            surface.diffuse_color = Some(value);
        }
    } else if str_eq(n, "metalness") {
        push_text(&mut surface.metallic_values, value);
    } else if str_eq(n, "specular_roughness") {
        push_text(&mut surface.roughness_values, value);
    } else if str_eq(n, "emission_color") {
        if !value.as_str().is_empty() {
            surface.emissive_color = Some(value);
        }
    } else if str_eq(n, "normal") {
        match resolve_file(files, attrs) {
            Some(f) => surface.normal_texture = Some(f),
            None => {},
        }
    }
}

fn new_surface() -> (r: MaterialXSurface)
    ensures
        surface_view(r) == empty_surface(),
{
    let r = MaterialXSurface {
        diffuse_color: None,
        diffuse_texture: None,
        metallic_values: Vec::new(),
        roughness_values: Vec::new(),
        normal_texture: None,
        emissive_color: None,
    };
    assert(views(r.metallic_values@) =~= Seq::<Seq<char>>::empty());
    assert(views(r.roughness_values@) =~= Seq::<Seq<char>>::empty());
    r
}

impl MaterialXParser {
    /// The state at the start of a document.
    pub fn new() -> (r: Self)
        ensures
            parser_view(r) == initial_model(),
    {
        let r = MaterialXParser {
            materials: Vec::new(),
            files: Vec::new(),
            current_nodegraph: None,
            current_image_node: None,
            current_surface: None,
        };
        assert(materials_view(r.materials@) =~= Seq::<(Seq<char>, SurfaceModel)>::empty());
        assert(files_view(r.files@) =~= Seq::<(Seq<char>, Seq<char>, Seq<char>)>::empty());
        r
    }

    fn on_input(&mut self, attrs: &Vec<(String, String)>)
        ensures
            parser_view(*final(self)) == on_input(parser_view(*old(self)), attrs@),
    {
        let name = match attr_get(attrs, "name") {
            Some(n) => n,
            None => String::new(),
        };
        let value = match attr_get(attrs, "value") {
            Some(v) => v,
            None => String::new(),
        };
        if str_eq(name.as_str(), "file") {
            match (&self.current_nodegraph, &self.current_image_node) {
                (Some(g), Some(n)) => push_file(&mut self.files, g.clone(), n.clone(), value),
                _ => {},
            }
        }
        match &mut self.current_surface {
            Some(cs) => apply_surface_input(&mut cs.1, &self.files, attrs),
            None => {},
        }
        assert(materials_view(self.materials@) == materials_view(old(self).materials@));
    }

    fn on_output(&mut self, attrs: &Vec<(String, String)>)
        ensures
            parser_view(*final(self)) == on_output(parser_view(*old(self)), attrs@),
    {
        match (&self.current_nodegraph, attr_get(attrs, "name"), attr_get(attrs, "nodename")) {
            (Some(g), Some(o), Some(n)) => match file_get(&self.files, g.as_str(), n.as_str()) {
                Some(f) => {
                    let g2 = g.clone();
                    push_file(&mut self.files, g2, o, f);
                },
                None => {},
            },
            _ => {},
        }
    }

    /// Applies one event to the state of the parse.
    pub fn step(&mut self, ev: &XmlEvent)
        ensures
            parser_view(*final(self)) == step_model(parser_view(*old(self)), *ev),
    {
        match ev {
            XmlEvent::Open { tag, attrs } => {
                let t = tag.as_str();
                if str_eq(t, "nodegraph") {
                    self.current_nodegraph = attr_get(attrs, "name");
                } else if str_eq(t, "tiledimage") || str_eq(t, "image") {
                    self.current_image_node = attr_get(attrs, "name");
                } else if str_eq(t, "input") {
                    self.on_input(attrs);
                } else if str_eq(t, "output") {
                    self.on_output(attrs);
                } else if str_eq(t, "standard_surface") {
                    match attr_get(attrs, "name") {
                        Some(n) => self.current_surface = Some((n, new_surface())),
                        None => {},
                    }
                }
            },
            XmlEvent::Close { tag } => {
                let t = tag.as_str();
                if str_eq(t, "nodegraph") {
                    self.current_nodegraph = None;
                } else if str_eq(t, "tiledimage") || str_eq(t, "image") {
                    self.current_image_node = None;
                } else if str_eq(t, "standard_surface") {
                    let cs = self.current_surface.take();
                    match cs {
                        Some(ms) => {
                            let ghost before = materials_view(self.materials@);
                            let ghost mv = (ms.0@, surface_view(ms.1));
                            self.materials.push(ms);
                            assert(materials_view(self.materials@) =~= before.push(mv));
                        },
                        None => {},
                    }
                }
            },
            _ => {},
        }
    }
}

/// The materials that a sequence of events defines, up to the first
/// `Finished`: each `standard_surface` closed, in order, with what its
/// inputs set.
pub fn parse_events(events: &Vec<XmlEvent>) -> (r: Vec<(String, MaterialXSurface)>)
    ensures
        materials_view(r@) == run_events(initial_model(), events@).materials,
{
    let mut parser = MaterialXParser::new();
    let mut i: usize = 0;
    assert(events@.skip(0) =~= events@);
    while i < events.len()
        invariant
            0 <= i <= events.len(),
            run_events(initial_model(), events@) == run_events(parser_view(parser), events@.skip(i as int)),
        decreases events.len() - i,
    {
        assert(events@.skip(i as int).drop_first() =~= events@.skip(i + 1));
        assert(events@.skip(i as int)[0] == events@[i as int]);
        if let XmlEvent::Finished = &events[i] {
            return parser.materials;
        }
        parser.step(&events[i]);
        i += 1;
    }
    parser.materials
}

proof fn lemma_run_events_push(m: MtlxModel, evs: Seq<XmlEvent>, ev: XmlEvent)
    requires
        forall|k: int| 0 <= k < evs.len() ==> !(#[trigger] evs[k] is Finished),
        !(ev is Finished),
    ensures
        run_events(m, evs.push(ev)) == step_model(run_events(m, evs), ev),
    decreases evs.len(),
{
    if evs.len() > 0 {
        assert(evs.push(ev).drop_first() =~= evs.drop_first().push(ev));
        assert(evs[0] == evs.push(ev)[0]);
        assert(!(evs[0] is Finished));
        lemma_run_events_push(step_model(m, evs[0]), evs.drop_first(), ev);
    } else {
        assert(evs.push(ev).drop_first() =~= Seq::<XmlEvent>::empty());
        assert(evs.push(ev)[0] == ev);
        assert(run_events(step_model(m, ev), Seq::<XmlEvent>::empty()) == step_model(m, ev));
        assert(evs =~= Seq::<XmlEvent>::empty());
    }
}

/// Running a prefix without `Finished` and then the rest is running both.
proof fn lemma_run_events_split(m: MtlxModel, p: Seq<XmlEvent>, q: Seq<XmlEvent>)
    requires
        forall|k: int| 0 <= k < p.len() ==> !(#[trigger] p[k] is Finished),
    ensures
        run_events(m, p + q) == run_events(run_events(m, p), q),
    decreases p.len(),
{
    if p.len() > 0 {
        assert((p + q).drop_first() =~= p.drop_first() + q);
        assert((p + q)[0] == p[0]);
        assert(!(p[0] is Finished));
        lemma_run_events_split(step_model(m, p[0]), p.drop_first(), q);
    } else {
        assert(p + q =~= q);
    }
}

/// The first `n` events of a document.
pub open spec fn events_of(content: Seq<char>, n: nat) -> Seq<XmlEvent> {
    Seq::new(n, |k: int| xml_event_at(content, k as nat))
}

/// How many events the parse reads at most: one per character and one more
/// for the end (each event other than the end consumes at least one
/// character), capped at the largest `usize`.
pub open spec fn event_bound(len: nat) -> nat {
    if len < usize::MAX {
        len + 1
    } else {
        usize::MAX as nat
    }
}

/// The events of a document that the parse reads.
pub open spec fn document_events(content: Seq<char>) -> Seq<XmlEvent> {
    events_of(content, event_bound(content.len()))
}

/// Parses a MaterialX document and returns its `standard_surface`
/// materials: what `parse_events` makes of the document's events.
pub fn parse_materialx(mtlx_content: &str) -> (r: Vec<(String, MaterialXSurface)>)
    ensures
        materials_view(r@) == run_events(initial_model(), document_events(mtlx_content@)).materials,
{
    let ghost c = mtlx_content@;
    let n = mtlx_content.unicode_len();
    let bound: usize = if n < usize::MAX {
        n + 1
    } else {
        usize::MAX
    };
    let mut cur = xml_reader(mtlx_content);
    let mut parser = MaterialXParser::new();
    let mut count: usize = 0;
    assert(events_of(c, 0) =~= Seq::<XmlEvent>::empty());
    while count < bound
        invariant
            c == mtlx_content@,
            cur.content() == c,
            cur.position() == count,
            bound as nat == event_bound(c.len()),
            count <= bound,
            forall|k: int| 0 <= k < count ==> !(#[trigger] xml_event_at(c, k as nat) is Finished),
            parser_view(parser) == run_events(initial_model(), events_of(c, count as nat)),
        decreases bound - count,
    {
        let ev = next_event(&mut cur);
        let ghost p = events_of(c, count as nat);
        let ghost all = document_events(c);
        assert(forall|k: int| 0 <= k < p.len() ==> #[trigger] p[k] == xml_event_at(c, k as nat));
        if let XmlEvent::Finished = ev {
            proof {
                let q = all.skip(count as int);
                assert(all =~= p + q);
                lemma_run_events_split(initial_model(), p, q);
                assert(q.len() > 0);
                assert(q[0] == xml_event_at(c, count as nat));
                assert(q[0] is Finished);
                assert(run_events(run_events(initial_model(), p), q) == run_events(initial_model(), p));
                assert(materials_view(parser.materials@) == parser_view(parser).materials);
                assert(run_events(initial_model(), all) == run_events(initial_model(), p + q));
                assert(run_events(initial_model(), all) == parser_view(parser));
            }
            return parser.materials;
        }
        parser.step(&ev);
        proof {
            lemma_run_events_push(initial_model(), p, ev);
            assert(p.push(ev) =~= events_of(c, (count + 1) as nat));
        }
        count += 1;
    }
    assert(events_of(c, count as nat) =~= document_events(c));
    parser.materials
}

} // verus!

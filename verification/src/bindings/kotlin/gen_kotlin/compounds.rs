//! Compound types: the optional, the sequence and the map.
//!
//! One handler serves every type that a compound wraps: it composes with
//! whatever is found for the wrapped type, and asks that handler for nothing
//! but its label, its canonical name, and its write and read expressions.

use vstd::prelude::*;
use vstd::string::*;
use crate::bindings::backend::BindingsError;
use crate::bindings::backend::BindingsErrorView;
use crate::bindings::backend::CodeType;
use crate::bindings::backend::LanguageOracle;
use crate::bindings::backend::rendered;
use crate::bindings::backend::StringReturn;
use crate::bindings::backend::TypeIdentifier;
use crate::bindings::kotlin::gen_kotlin::dispatch::canonical_name_of;
use crate::bindings::kotlin::gen_kotlin::dispatch::import_code_of;
use crate::bindings::kotlin::gen_kotlin::dispatch::lemma_find_agrees;
use crate::bindings::kotlin::gen_kotlin::dispatch::lift_of;
use crate::bindings::kotlin::gen_kotlin::dispatch::literal_of;
use crate::bindings::kotlin::gen_kotlin::dispatch::lower_of;
use crate::bindings::kotlin::gen_kotlin::dispatch::nesting;
use crate::bindings::kotlin::gen_kotlin::dispatch::read_of;
use crate::bindings::kotlin::gen_kotlin::dispatch::type_label_of;
use crate::bindings::kotlin::gen_kotlin::dispatch::write_of;
use crate::bindings::kotlin::gen_kotlin::KotlinLanguageOracle;
use crate::interface::literal::Literal;
use crate::interface::literal::LiteralView;
use crate::interface::types::TypeView;

verus! {

/// The constant for a literal of a compound type: the absent value, the
/// empty list or the empty map. No other literal is a constant of a
/// compound type.
pub open spec fn compound_literal_spec(literal: LiteralView) -> Result<
    Seq<char>,
    BindingsErrorView,
> {
    match literal {
        LiteralView::Null => Ok("null"@),
        LiteralView::EmptySequence => Ok("listOf()"@),
        LiteralView::EmptyMap => Ok("mapOf()"@),
        _ => Err(BindingsErrorView::UnexpectedLiteral(literal.kind())),
    }
}

/// Renders a literal of a compound type.
pub fn render_literal<O: LanguageOracle>(_oracle: &O, literal: &Literal) -> (r: Result<
    String,
    BindingsError,
>)
    ensures
        rendered(r) == compound_literal_spec(literal@),
{
    match literal {
        Literal::Null => Ok(String::from_str("null")),
        Literal::EmptySequence => Ok(String::from_str("listOf()")),
        Literal::EmptyMap => Ok(String::from_str("mapOf()")),
        _ => Err(BindingsError::UnexpectedLiteral(literal.kind())),
    }
}

/// The Kotlin functions that pass an optional value: one byte that says whether
/// the value is there, and the value behind it if it is.
pub open spec fn optional_helper_text(inner: TypeView, outer: TypeView) -> Seq<char> {
    let oracle = KotlinLanguageOracle;
    "\n\n    // Helper functions for pasing values of type "@
        + type_label_of(&oracle, outer)
        + "\n    @ExperimentalUnsignedTypes\n    internal fun lower"@
        + canonical_name_of(&oracle, outer)
        + "(v: "@
        + type_label_of(&oracle, inner)
        + "?): RustBuffer.ByValue {\n        return lowerIntoRustBuffer(v) { v, buf ->\n            write"@
        + canonical_name_of(&oracle, outer)
        + "(v, buf)\n        }\n    }\n\n    @ExperimentalUnsignedTypes\n    internal fun write"@
        + canonical_name_of(&oracle, outer)
        + "(v: "@
        + type_label_of(&oracle, inner)
        + "?, buf: RustBufferBuilder) {\n        if (v == null) {\n            buf.putByte(0)\n        } else {\n            buf.putByte(1)\n            "@
        + write_of(&oracle, "v"@, "buf"@, inner)
        + "\n        }\n    }\n\n    @ExperimentalUnsignedTypes\n    internal fun lift"@
        + canonical_name_of(&oracle, outer)
        + "(rbuf: RustBuffer.ByValue): "@
        + type_label_of(&oracle, inner)
        + "? {\n        return liftFromRustBuffer(rbuf) { buf ->\n            read"@
        + canonical_name_of(&oracle, outer)
        + "(buf)\n        }\n    }\n\n    @ExperimentalUnsignedTypes\n    internal fun read"@
        + canonical_name_of(&oracle, outer)
        + "(buf: ByteBuffer): "@
        + type_label_of(&oracle, inner)
        + "? {\n        if (buf.get().toInt() == 0) {\n            return null\n        }\n        return "@
        + read_of(&oracle, "buf"@, inner)
        + "\n    }\n "@
}

/// Writes out the helper functions of a compound type.
fn render_optional_helper(inner: &TypeIdentifier, outer: &TypeIdentifier) -> (r: String)
    ensures
        r@ == optional_helper_text(inner@, outer@),
{
    let oracle = KotlinLanguageOracle;
    let inner_handler = oracle.find(inner);
    let outer_handler = oracle.find(outer);
    proof {
        lemma_find_agrees(inner_handler, &oracle);
        lemma_find_agrees(outer_handler, &oracle);
    }
    let inner_type_name = inner_handler.type_label(&oracle);
    let outer_type_name = outer_handler.type_label(&oracle);
    let canonical_type_name = outer_handler.canonical_name(&oracle);
    String::from_str("\n\n    // Helper functions for pasing values of type ").concat(
        outer_type_name.as_str(),
    ).concat(
        "\n    @ExperimentalUnsignedTypes\n    internal fun lower",
    ).concat(
        canonical_type_name.as_str(),
    ).concat(
        "(v: ",
    ).concat(
        inner_type_name.as_str(),
    ).concat(
        "?): RustBuffer.ByValue {\n        return lowerIntoRustBuffer(v) { v, buf ->\n            write",
    ).concat(
        canonical_type_name.as_str(),
    ).concat(
        "(v, buf)\n        }\n    }\n\n    @ExperimentalUnsignedTypes\n    internal fun write",
    ).concat(
        canonical_type_name.as_str(),
    ).concat(
        "(v: ",
    ).concat(
        inner_type_name.as_str(),
    ).concat(
        "?, buf: RustBufferBuilder) {\n        if (v == null) {\n            buf.putByte(0)\n        } else {\n            buf.putByte(1)\n            ",
    ).concat(
        inner_handler.write(&oracle, "v", "buf").as_str(),
    ).concat(
        "\n        }\n    }\n\n    @ExperimentalUnsignedTypes\n    internal fun lift",
    ).concat(
        canonical_type_name.as_str(),
    ).concat(
        "(rbuf: RustBuffer.ByValue): ",
    ).concat(
        inner_type_name.as_str(),
    ).concat(
        "? {\n        return liftFromRustBuffer(rbuf) { buf ->\n            read",
    ).concat(
        canonical_type_name.as_str(),
    ).concat(
        "(buf)\n        }\n    }\n\n    @ExperimentalUnsignedTypes\n    internal fun read",
    ).concat(
        canonical_type_name.as_str(),
    ).concat(
        "(buf: ByteBuffer): ",
    ).concat(
        inner_type_name.as_str(),
    ).concat(
        "? {\n        if (buf.get().toInt() == 0) {\n            return null\n        }\n        return ",
    ).concat(
        inner_handler.read(&oracle, "buf").as_str(),
    ).concat(
        "\n    }\n ",
    )
}

/// The handler of optional types. It holds the type that it wraps and the
/// compound type itself.
pub struct OptionalCodeType {
    inner: TypeIdentifier,
    outer: TypeIdentifier,
}

impl OptionalCodeType {
    /// The wrapped type.
    pub closed spec fn inner_view(&self) -> TypeView {
        self.inner@
    }

    /// The compound type.
    pub closed spec fn outer_view(&self) -> TypeView {
        self.outer@
    }

    /// Whether the handler's compound type is the optional of its wrapped type.
    pub open spec fn wf(&self) -> bool {
        self.outer_view() == TypeView::Optional(Box::new(self.inner_view()))
    }

    pub fn new(inner: TypeIdentifier, outer: TypeIdentifier) -> (r: Self)
        ensures
            r.inner_view() == inner@,
            r.outer_view() == outer@,
    {
        Self { inner, outer }
    }

    fn inner(&self) -> (r: &TypeIdentifier)
        ensures
            r@ == self.inner_view(),
    {
        &self.inner
    }

    fn outer(&self) -> (r: &TypeIdentifier)
        ensures
            r@ == self.outer_view(),
    {
        &self.outer
    }
}

impl<O: LanguageOracle> CodeType<O> for OptionalCodeType {
    open spec fn type_label_spec(&self, oracle: &O) -> Seq<char> {
        type_label_of(oracle, TypeView::Optional(Box::new(self.inner_view())))
    }

    open spec fn canonical_name_spec(&self, oracle: &O) -> Seq<char> {
        canonical_name_of(oracle, TypeView::Optional(Box::new(self.inner_view())))
    }

    open spec fn literal_spec(&self, oracle: &O, literal: LiteralView) -> Result<
        Seq<char>,
        BindingsErrorView,
    > {
        literal_of(oracle, literal, TypeView::Optional(Box::new(self.inner_view())))
    }

    open spec fn lower_spec(&self, oracle: &O, nm: Seq<char>) -> Seq<char> {
        lower_of(oracle, nm, TypeView::Optional(Box::new(self.inner_view())))
    }

    open spec fn write_spec(&self, oracle: &O, nm: Seq<char>, target: Seq<char>) -> Seq<char> {
        write_of(oracle, nm, target, TypeView::Optional(Box::new(self.inner_view())))
    }

    open spec fn lift_spec(&self, oracle: &O, nm: Seq<char>) -> Seq<char> {
        lift_of(oracle, nm, TypeView::Optional(Box::new(self.inner_view())))
    }

    open spec fn read_spec(&self, oracle: &O, nm: Seq<char>) -> Seq<char> {
        read_of(oracle, nm, TypeView::Optional(Box::new(self.inner_view())))
    }

    open spec fn helper_code_spec(&self, oracle: &O) -> Option<Seq<char>> {
        Some(optional_helper_text(self.inner_view(), self.outer_view()))
    }

    open spec fn import_code_spec(&self, oracle: &O) -> Option<Seq<Seq<char>>> {
        import_code_of(TypeView::Optional(Box::new(self.inner_view())))
    }

    fn type_label(&self, oracle: &O) -> (r: StringReturn)
        decreases nesting(self.inner_view()), 1nat,
    {
        let handler = KotlinLanguageOracle.find(self.inner());
        proof {
            lemma_find_agrees(handler, oracle);
        }
        let inner = handler.type_label(oracle);
        inner.concat("?")
    }

    fn canonical_name(&self, oracle: &O) -> (r: StringReturn)
        decreases nesting(self.inner_view()), 1nat,
    {
        let handler = KotlinLanguageOracle.find(self.inner());
        proof {
            lemma_find_agrees(handler, oracle);
        }
        let inner = handler.canonical_name(oracle);
        String::from_str("Optional").concat(inner.as_str())
    }

    fn literal(&self, oracle: &O, literal: &Literal) -> (r: Result<StringReturn, BindingsError>) {
        render_literal(oracle, literal)
    }

    fn lower(&self, oracle: &O, nm: &str) -> (r: StringReturn) {
        String::from_str("lower").concat(self.canonical_name(oracle).as_str()).concat("(").concat(
            oracle.var_name(nm).as_str(),
        ).concat(")")
    }

    fn write(&self, oracle: &O, nm: &str, target: &str) -> (r: StringReturn) {
        String::from_str("write").concat(self.canonical_name(oracle).as_str()).concat("(").concat(
            oracle.var_name(nm).as_str(),
        ).concat(", ").concat(target).concat(")")
    }

    fn lift(&self, oracle: &O, nm: &str) -> (r: StringReturn) {
        String::from_str("lift").concat(self.canonical_name(oracle).as_str()).concat("(").concat(
            nm,
        ).concat(")")
    }

    fn read(&self, oracle: &O, nm: &str) -> (r: StringReturn) {
        String::from_str("read").concat(self.canonical_name(oracle).as_str()).concat("(").concat(
            nm,
        ).concat(")")
    }

    fn helper_code(&self, _oracle: &O) -> (r: Option<String>) {
        Some(render_optional_helper(self.inner(), self.outer()))
    }

    fn import_code(&self, _oracle: &O) -> (r: Option<Vec<String>>) {
        None
    }
}

/// The Kotlin functions that pass a list: the number of elements in four bytes,
/// and the elements behind it in their order.
pub open spec fn sequence_helper_text(inner: TypeView, outer: TypeView) -> Seq<char> {
    let oracle = KotlinLanguageOracle;
    "\n\n    // Helper functions for pasing values of type "@
        + type_label_of(&oracle, outer)
        + "\n    @ExperimentalUnsignedTypes\n    internal fun lower"@
        + canonical_name_of(&oracle, outer)
        + "(v: List<"@
        + type_label_of(&oracle, inner)
        + ">): RustBuffer.ByValue {\n        return lowerIntoRustBuffer(v) { v, buf ->\n            write"@
        + canonical_name_of(&oracle, outer)
        + "(v, buf)\n        }\n    }\n\n    @ExperimentalUnsignedTypes\n    internal fun write"@
        + canonical_name_of(&oracle, outer)
        + "(v: List<"@
        + type_label_of(&oracle, inner)
        + ">, buf: RustBufferBuilder) {\n        buf.putInt(v.size)\n        v.forEach {\n            "@
        + write_of(&oracle, "it"@, "buf"@, inner)
        + "\n        }\n    }\n\n    @ExperimentalUnsignedTypes\n    internal fun lift"@
        + canonical_name_of(&oracle, outer)
        + "(rbuf: RustBuffer.ByValue): List<"@
        + type_label_of(&oracle, inner)
        + "> {\n        return liftFromRustBuffer(rbuf) { buf ->\n            read"@
        + canonical_name_of(&oracle, outer)
        + "(buf)\n        }\n    }\n\n    @ExperimentalUnsignedTypes\n    internal fun read"@
        + canonical_name_of(&oracle, outer)
        + "(buf: ByteBuffer): List<"@
        + type_label_of(&oracle, inner)
        + "> {\n        val len = buf.getInt()\n        return List<"@
        + type_label_of(&oracle, inner)
        + ">(len) {\n            "@
        + read_of(&oracle, "buf"@, inner)
        + "\n        }\n    }\n"@
}

/// Writes out the helper functions of a compound type.
fn render_sequence_helper(inner: &TypeIdentifier, outer: &TypeIdentifier) -> (r: String)
    ensures
        r@ == sequence_helper_text(inner@, outer@),
{
    let oracle = KotlinLanguageOracle;
    let inner_handler = oracle.find(inner);
    let outer_handler = oracle.find(outer);
    proof {
        lemma_find_agrees(inner_handler, &oracle);
        lemma_find_agrees(outer_handler, &oracle);
    }
    let inner_type_name = inner_handler.type_label(&oracle);
    let outer_type_name = outer_handler.type_label(&oracle);
    let canonical_type_name = outer_handler.canonical_name(&oracle);
    String::from_str("\n\n    // Helper functions for pasing values of type ").concat(
        outer_type_name.as_str(),
    ).concat(
        "\n    @ExperimentalUnsignedTypes\n    internal fun lower",
    ).concat(
        canonical_type_name.as_str(),
    ).concat(
        "(v: List<",
    ).concat(
        inner_type_name.as_str(),
    ).concat(
        ">): RustBuffer.ByValue {\n        return lowerIntoRustBuffer(v) { v, buf ->\n            write",
    ).concat(
        canonical_type_name.as_str(),
    ).concat(
        "(v, buf)\n        }\n    }\n\n    @ExperimentalUnsignedTypes\n    internal fun write",
    ).concat(
        canonical_type_name.as_str(),
    ).concat(
        "(v: List<",
    ).concat(
        inner_type_name.as_str(),
    ).concat(
        ">, buf: RustBufferBuilder) {\n        buf.putInt(v.size)\n        v.forEach {\n            ",
    ).concat(
        inner_handler.write(&oracle, "it", "buf").as_str(),
    ).concat(
        "\n        }\n    }\n\n    @ExperimentalUnsignedTypes\n    internal fun lift",
    ).concat(
        canonical_type_name.as_str(),
    ).concat(
        "(rbuf: RustBuffer.ByValue): List<",
    ).concat(
        inner_type_name.as_str(),
    ).concat(
        "> {\n        return liftFromRustBuffer(rbuf) { buf ->\n            read",
    ).concat(
        canonical_type_name.as_str(),
    ).concat(
        "(buf)\n        }\n    }\n\n    @ExperimentalUnsignedTypes\n    internal fun read",
    ).concat(
        canonical_type_name.as_str(),
    ).concat(
        "(buf: ByteBuffer): List<",
    ).concat(
        inner_type_name.as_str(),
    ).concat(
        "> {\n        val len = buf.getInt()\n        return List<",
    ).concat(
        inner_type_name.as_str(),
    ).concat(
        ">(len) {\n            ",
    ).concat(
        inner_handler.read(&oracle, "buf").as_str(),
    ).concat(
        "\n        }\n    }\n",
    )
}

/// The handler of sequence types. It holds the type that it wraps and the
/// compound type itself.
pub struct SequenceCodeType {
    inner: TypeIdentifier,
    outer: TypeIdentifier,
}

impl SequenceCodeType {
    /// The wrapped type.
    pub closed spec fn inner_view(&self) -> TypeView {
        self.inner@
    }

    /// The compound type.
    pub closed spec fn outer_view(&self) -> TypeView {
        self.outer@
    }

    /// Whether the handler's compound type is the sequence of its wrapped type.
    pub open spec fn wf(&self) -> bool {
        self.outer_view() == TypeView::Sequence(Box::new(self.inner_view()))
    }

    pub fn new(inner: TypeIdentifier, outer: TypeIdentifier) -> (r: Self)
        ensures
            r.inner_view() == inner@,
            r.outer_view() == outer@,
    {
        Self { inner, outer }
    }

    fn inner(&self) -> (r: &TypeIdentifier)
        ensures
            r@ == self.inner_view(),
    {
        &self.inner
    }

    fn outer(&self) -> (r: &TypeIdentifier)
        ensures
            r@ == self.outer_view(),
    {
        &self.outer
    }
}

impl<O: LanguageOracle> CodeType<O> for SequenceCodeType {
    open spec fn type_label_spec(&self, oracle: &O) -> Seq<char> {
        type_label_of(oracle, TypeView::Sequence(Box::new(self.inner_view())))
    }

    open spec fn canonical_name_spec(&self, oracle: &O) -> Seq<char> {
        canonical_name_of(oracle, TypeView::Sequence(Box::new(self.inner_view())))
    }

    open spec fn literal_spec(&self, oracle: &O, literal: LiteralView) -> Result<
        Seq<char>,
        BindingsErrorView,
    > {
        literal_of(oracle, literal, TypeView::Sequence(Box::new(self.inner_view())))
    }

    open spec fn lower_spec(&self, oracle: &O, nm: Seq<char>) -> Seq<char> {
        lower_of(oracle, nm, TypeView::Sequence(Box::new(self.inner_view())))
    }

    open spec fn write_spec(&self, oracle: &O, nm: Seq<char>, target: Seq<char>) -> Seq<char> {
        write_of(oracle, nm, target, TypeView::Sequence(Box::new(self.inner_view())))
    }

    open spec fn lift_spec(&self, oracle: &O, nm: Seq<char>) -> Seq<char> {
        lift_of(oracle, nm, TypeView::Sequence(Box::new(self.inner_view())))
    }

    open spec fn read_spec(&self, oracle: &O, nm: Seq<char>) -> Seq<char> {
        read_of(oracle, nm, TypeView::Sequence(Box::new(self.inner_view())))
    }

    open spec fn helper_code_spec(&self, oracle: &O) -> Option<Seq<char>> {
        Some(sequence_helper_text(self.inner_view(), self.outer_view()))
    }

    open spec fn import_code_spec(&self, oracle: &O) -> Option<Seq<Seq<char>>> {
        import_code_of(TypeView::Sequence(Box::new(self.inner_view())))
    }

    fn type_label(&self, oracle: &O) -> (r: StringReturn)
        decreases nesting(self.inner_view()), 1nat,
    {
        let handler = KotlinLanguageOracle.find(self.inner());
        proof {
            lemma_find_agrees(handler, oracle);
        }
        let inner = handler.type_label(oracle);
        String::from_str("List<").concat(inner.as_str()).concat(">")
    }

    fn canonical_name(&self, oracle: &O) -> (r: StringReturn)
        decreases nesting(self.inner_view()), 1nat,
    {
        let handler = KotlinLanguageOracle.find(self.inner());
        proof {
            lemma_find_agrees(handler, oracle);
        }
        let inner = handler.canonical_name(oracle);
        String::from_str("Sequence").concat(inner.as_str())
    }

    fn literal(&self, oracle: &O, literal: &Literal) -> (r: Result<StringReturn, BindingsError>) {
        render_literal(oracle, literal)
    }

    fn lower(&self, oracle: &O, nm: &str) -> (r: StringReturn) {
        String::from_str("lower").concat(self.canonical_name(oracle).as_str()).concat("(").concat(
            oracle.var_name(nm).as_str(),
        ).concat(")")
    }

    fn write(&self, oracle: &O, nm: &str, target: &str) -> (r: StringReturn) {
        String::from_str("write").concat(self.canonical_name(oracle).as_str()).concat("(").concat(
            oracle.var_name(nm).as_str(),
        ).concat(", ").concat(target).concat(")")
    }

    fn lift(&self, oracle: &O, nm: &str) -> (r: StringReturn) {
        String::from_str("lift").concat(self.canonical_name(oracle).as_str()).concat("(").concat(
            nm,
        ).concat(")")
    }

    fn read(&self, oracle: &O, nm: &str) -> (r: StringReturn) {
        String::from_str("read").concat(self.canonical_name(oracle).as_str()).concat("(").concat(
            nm,
        ).concat(")")
    }

    fn helper_code(&self, _oracle: &O) -> (r: Option<String>) {
        Some(render_sequence_helper(self.inner(), self.outer()))
    }

    fn import_code(&self, _oracle: &O) -> (r: Option<Vec<String>>) {
        None
    }
}

/// The Kotlin functions that pass a map with string keys: the number of entries
/// in four bytes, and behind it each key followed by its value.
pub open spec fn map_helper_text(inner: TypeView, outer: TypeView) -> Seq<char> {
    let oracle = KotlinLanguageOracle;
    "\n\n    // Helper functions for pasing values of type "@
        + type_label_of(&oracle, outer)
        + "\n    @ExperimentalUnsignedTypes\n    internal fun lower"@
        + canonical_name_of(&oracle, outer)
        + "(m: Map<String, "@
        + type_label_of(&oracle, inner)
        + ">): RustBuffer.ByValue {\n        return lowerIntoRustBuffer(m) { m, buf ->\n            write"@
        + canonical_name_of(&oracle, outer)
        + "(m, buf)\n        }\n    }\n\n    @ExperimentalUnsignedTypes\n    internal fun write"@
        + canonical_name_of(&oracle, outer)
        + "(v: Map<String, "@
        + type_label_of(&oracle, inner)
        + ">, buf: RustBufferBuilder) {\n        buf.putInt(v.size)\n        // The parens on `(k, v)` here ensure we're calling the right method,\n        // which is important for compatibility with older android devices.\n        // Ref https://blog.danlew.net/2017/03/16/kotlin-puzzler-whose-line-is-it-anyways/\n        v.forEach { (k, v) ->\n            "@
        + write_of(&oracle, "k"@, "buf"@, TypeView::String)
        + "\n            "@
        + write_of(&oracle, "v"@, "buf"@, inner)
        + "\n        }\n    }\n\n    @ExperimentalUnsignedTypes\n    internal fun lift"@
        + canonical_name_of(&oracle, outer)
        + "(rbuf: RustBuffer.ByValue): Map<String, "@
        + type_label_of(&oracle, inner)
        + "> {\n        return liftFromRustBuffer(rbuf) { buf ->\n            read"@
        + canonical_name_of(&oracle, outer)
        + "(buf)\n        }\n    }\n\n    @ExperimentalUnsignedTypes\n    internal fun read"@
        + canonical_name_of(&oracle, outer)
        + "(buf: ByteBuffer): Map<String, "@
        + type_label_of(&oracle, inner)
        + "> {\n        // TODO: Once Kotlin's `buildMap` API is stabilized we should use it here.\n        val items : MutableMap<String, "@
        + type_label_of(&oracle, inner)
        + "> = mutableMapOf()\n        val len = buf.getInt()\n        repeat(len) {\n            val k = "@
        + read_of(&oracle, "buf"@, TypeView::String)
        + "\n            val v = "@
        + read_of(&oracle, "buf"@, inner)
        + "\n            items[k] = v\n        }\n        return items\n    }\n"@
}

/// Writes out the helper functions of a compound type.
fn render_map_helper(inner: &TypeIdentifier, outer: &TypeIdentifier) -> (r: String)
    ensures
        r@ == map_helper_text(inner@, outer@),
{
    let oracle = KotlinLanguageOracle;
    let inner_handler = oracle.find(inner);
    let outer_handler = oracle.find(outer);
    let key_handler = oracle.find(&TypeIdentifier::String);
    proof {
        lemma_find_agrees(inner_handler, &oracle);
        lemma_find_agrees(outer_handler, &oracle);
        lemma_find_agrees(key_handler, &oracle);
    }
    let inner_type_name = inner_handler.type_label(&oracle);
    let outer_type_name = outer_handler.type_label(&oracle);
    let canonical_type_name = outer_handler.canonical_name(&oracle);
    String::from_str("\n\n    // Helper functions for pasing values of type ").concat(
        outer_type_name.as_str(),
    ).concat(
        "\n    @ExperimentalUnsignedTypes\n    internal fun lower",
    ).concat(
        canonical_type_name.as_str(),
    ).concat(
        "(m: Map<String, ",
    ).concat(
        inner_type_name.as_str(),
    ).concat(
        ">): RustBuffer.ByValue {\n        return lowerIntoRustBuffer(m) { m, buf ->\n            write",
    ).concat(
        canonical_type_name.as_str(),
    ).concat(
        "(m, buf)\n        }\n    }\n\n    @ExperimentalUnsignedTypes\n    internal fun write",
    ).concat(
        canonical_type_name.as_str(),
    ).concat(
        "(v: Map<String, ",
    ).concat(
        inner_type_name.as_str(),
    ).concat(
        ">, buf: RustBufferBuilder) {\n        buf.putInt(v.size)\n        // The parens on `(k, v)` here ensure we're calling the right method,\n        // which is important for compatibility with older android devices.\n        // Ref https://blog.danlew.net/2017/03/16/kotlin-puzzler-whose-line-is-it-anyways/\n        v.forEach { (k, v) ->\n            ",
    ).concat(
        key_handler.write(&oracle, "k", "buf").as_str(),
    ).concat(
        "\n            ",
    ).concat(
        inner_handler.write(&oracle, "v", "buf").as_str(),
    ).concat(
        "\n        }\n    }\n\n    @ExperimentalUnsignedTypes\n    internal fun lift",
    ).concat(
        canonical_type_name.as_str(),
    ).concat(
        "(rbuf: RustBuffer.ByValue): Map<String, ",
    ).concat(
        inner_type_name.as_str(),
    ).concat(
        "> {\n        return liftFromRustBuffer(rbuf) { buf ->\n            read",
    ).concat(
        canonical_type_name.as_str(),
    ).concat(
        "(buf)\n        }\n    }\n\n    @ExperimentalUnsignedTypes\n    internal fun read",
    ).concat(
        canonical_type_name.as_str(),
    ).concat(
        "(buf: ByteBuffer): Map<String, ",
    ).concat(
        inner_type_name.as_str(),
    ).concat(
        "> {\n        // TODO: Once Kotlin's `buildMap` API is stabilized we should use it here.\n        val items : MutableMap<String, ",
    ).concat(
        inner_type_name.as_str(),
    ).concat(
        "> = mutableMapOf()\n        val len = buf.getInt()\n        repeat(len) {\n            val k = ",
    ).concat(
        key_handler.read(&oracle, "buf").as_str(),
    ).concat(
        "\n            val v = ",
    ).concat(
        inner_handler.read(&oracle, "buf").as_str(),
    ).concat(
        "\n            items[k] = v\n        }\n        return items\n    }\n",
    )
}

/// The handler of map types. It holds the type that it wraps and the
/// compound type itself.
pub struct MapCodeType {
    inner: TypeIdentifier,
    outer: TypeIdentifier,
}

impl MapCodeType {
    /// The wrapped type.
    pub closed spec fn inner_view(&self) -> TypeView {
        self.inner@
    }

    /// The compound type.
    pub closed spec fn outer_view(&self) -> TypeView {
        self.outer@
    }

    /// Whether the handler's compound type is the map of its wrapped type.
    pub open spec fn wf(&self) -> bool {
        self.outer_view() == TypeView::Mapping(Box::new(self.inner_view()))
    }

    pub fn new(inner: TypeIdentifier, outer: TypeIdentifier) -> (r: Self)
        ensures
            r.inner_view() == inner@,
            r.outer_view() == outer@,
    {
        Self { inner, outer }
    }

    fn inner(&self) -> (r: &TypeIdentifier)
        ensures
            r@ == self.inner_view(),
    {
        &self.inner
    }

    fn outer(&self) -> (r: &TypeIdentifier)
        ensures
            r@ == self.outer_view(),
    {
        &self.outer
    }
}

impl<O: LanguageOracle> CodeType<O> for MapCodeType {
    open spec fn type_label_spec(&self, oracle: &O) -> Seq<char> {
        type_label_of(oracle, TypeView::Mapping(Box::new(self.inner_view())))
    }

    open spec fn canonical_name_spec(&self, oracle: &O) -> Seq<char> {
        canonical_name_of(oracle, TypeView::Mapping(Box::new(self.inner_view())))
    }

    open spec fn literal_spec(&self, oracle: &O, literal: LiteralView) -> Result<
        Seq<char>,
        BindingsErrorView,
    > {
        literal_of(oracle, literal, TypeView::Mapping(Box::new(self.inner_view())))
    }

    open spec fn lower_spec(&self, oracle: &O, nm: Seq<char>) -> Seq<char> {
        lower_of(oracle, nm, TypeView::Mapping(Box::new(self.inner_view())))
    }

    open spec fn write_spec(&self, oracle: &O, nm: Seq<char>, target: Seq<char>) -> Seq<char> {
        write_of(oracle, nm, target, TypeView::Mapping(Box::new(self.inner_view())))
    }

    open spec fn lift_spec(&self, oracle: &O, nm: Seq<char>) -> Seq<char> {
        lift_of(oracle, nm, TypeView::Mapping(Box::new(self.inner_view())))
    }

    open spec fn read_spec(&self, oracle: &O, nm: Seq<char>) -> Seq<char> {
        read_of(oracle, nm, TypeView::Mapping(Box::new(self.inner_view())))
    }

    open spec fn helper_code_spec(&self, oracle: &O) -> Option<Seq<char>> {
        Some(map_helper_text(self.inner_view(), self.outer_view()))
    }

    open spec fn import_code_spec(&self, oracle: &O) -> Option<Seq<Seq<char>>> {
        import_code_of(TypeView::Mapping(Box::new(self.inner_view())))
    }

    fn type_label(&self, oracle: &O) -> (r: StringReturn)
        decreases nesting(self.inner_view()), 1nat,
    {
        let handler = KotlinLanguageOracle.find(self.inner());
        proof {
            lemma_find_agrees(handler, oracle);
        }
        let inner = handler.type_label(oracle);
        String::from_str("Map<String, ").concat(inner.as_str()).concat(">")
    }

    fn canonical_name(&self, oracle: &O) -> (r: StringReturn)
        decreases nesting(self.inner_view()), 1nat,
    {
        let handler = KotlinLanguageOracle.find(self.inner());
        proof {
            lemma_find_agrees(handler, oracle);
        }
        let inner = handler.canonical_name(oracle);
        String::from_str("Map").concat(inner.as_str())
    }

    fn literal(&self, oracle: &O, literal: &Literal) -> (r: Result<StringReturn, BindingsError>) {
        render_literal(oracle, literal)
    }

    fn lower(&self, oracle: &O, nm: &str) -> (r: StringReturn) {
        String::from_str("lower").concat(self.canonical_name(oracle).as_str()).concat("(").concat(
            oracle.var_name(nm).as_str(),
        ).concat(")")
    }

    fn write(&self, oracle: &O, nm: &str, target: &str) -> (r: StringReturn) {
        String::from_str("write").concat(self.canonical_name(oracle).as_str()).concat("(").concat(
            oracle.var_name(nm).as_str(),
        ).concat(", ").concat(target).concat(")")
    }

    fn lift(&self, oracle: &O, nm: &str) -> (r: StringReturn) {
        String::from_str("lift").concat(self.canonical_name(oracle).as_str()).concat("(").concat(
            nm,
        ).concat(")")
    }

    fn read(&self, oracle: &O, nm: &str) -> (r: StringReturn) {
        String::from_str("read").concat(self.canonical_name(oracle).as_str()).concat("(").concat(
            nm,
        ).concat(")")
    }

    fn helper_code(&self, _oracle: &O) -> (r: Option<String>) {
        Some(render_map_helper(self.inner(), self.outer()))
    }

    fn import_code(&self, _oracle: &O) -> (r: Option<Vec<String>>) {
        None
    }
}

} // verus!

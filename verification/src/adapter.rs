//! What a caller hands to a connection, and how an engine writes SQL.
use vstd::prelude::*;

use crate::error::DdbCoreError;
use crate::schema::{
    CheckConstraint, ForeignKey, IdentityGeneration, IndexColumn, PrimaryKey, TableRef,
    UniqueConstraint,
};
use crate::text;
use crate::types::DataType;
use crate::value::{self, Value, ValueModel};

verus! {

/// How the connection is secured in transit.
#[derive(Debug, Clone, Copy, PartialEq, Eq, Structural)]
pub enum EncryptionMode {
    ClearText,
    Tls { verify_cert: bool },
}

impl Default for EncryptionMode {
    /// Clear text, unless a caller asks for more.
    fn default() -> (r: EncryptionMode)
        ensures
            r == EncryptionMode::ClearText,
    {
        EncryptionMode::ClearText
    }
}

#[derive(Debug, Clone)]
pub struct ConnectionConfig {
    pub host: String,
    pub port: u16,
    pub database: String,
    pub username: String,
    pub password: String,
    pub encryption: EncryptionMode,
    /// Enforced by the session where the engine can, not left to the caller.
    pub read_only: bool,
}

/// How strictly the transport is secured, in the terms that database drivers
/// share.
#[derive(Debug, Clone, Copy, PartialEq, Eq, Structural)]
pub enum TransportSecurity {
    /// No encryption.
    Disabled,
    /// Encrypted, whoever is at the other end.
    Required,
    /// Encrypted, and the certificate must name the host.
    VerifyIdentity,
}

impl ConnectionConfig {
    pub open spec fn spec_transport(self) -> TransportSecurity {
        match self.encryption {
            EncryptionMode::ClearText => TransportSecurity::Disabled,
            EncryptionMode::Tls { verify_cert: true } => TransportSecurity::VerifyIdentity,
            EncryptionMode::Tls { verify_cert: false } => TransportSecurity::Required,
        }
    }

    /// The transport that the configured encryption asks of a driver.
    pub fn transport(&self) -> (r: TransportSecurity)
        ensures
            r == self.spec_transport(),
    {
        match self.encryption {
            EncryptionMode::ClearText => TransportSecurity::Disabled,
            EncryptionMode::Tls { verify_cert } => {
                if verify_cert {
                    TransportSecurity::VerifyIdentity
                } else {
                    TransportSecurity::Required
                }
            },
        }
    }
}

/// An engine's quoting characters, parameter style and capabilities, so that
/// callers can compose portable SQL.
#[derive(Debug, Clone, Copy, PartialEq, Eq)]
pub struct Dialect {
    pub name: &'static str,
    /// Identifier quoting: `"` for Postgres and standard SQL, a backtick for
    /// MySQL, `[` and `]` for SQL Server.
    pub quote_open: char,
    pub quote_close: char,
    pub param_style: ParamStyle,
    pub supports_schemas: bool,
    pub supports_sequences: bool,
    pub supports_drop_table_cascade: bool,
    pub supports_drop_if_exists: bool,
}

#[derive(Debug, Clone, Copy, PartialEq, Eq, Structural)]
pub enum ParamStyle {
    /// `$1`, `$2`, ... (Postgres)
    Dollar,
    /// `?` by position (MySQL)
    Question,
    /// `@p1`, `@p2`, ... (SQL Server)
    AtNumbered,
}

impl Dialect {
    /// An identifier between quotes, with every closing quote in it doubled.
    pub open spec fn quoted(self, ident: Seq<char>) -> Seq<char> {
        seq![self.quote_open] + text::doubled(ident, self.quote_close) + seq![self.quote_close]
    }

    /// The identifier that a quoted text stands for.
    pub open spec fn unquoted(self, quoted: Seq<char>) -> Seq<char> {
        text::undoubled(quoted.subrange(1, quoted.len() - 1), self.quote_close)
    }

    /// The quoted name, behind the quoted schema where the engine has schemas.
    pub open spec fn qualified(self, schema: Seq<char>, name: Seq<char>) -> Seq<char> {
        if self.supports_schemas {
            self.quoted(schema) + seq!['.'] + self.quoted(name)
        } else {
            self.quoted(name)
        }
    }

    /// A `DROP TABLE` statement, with `IF EXISTS` and `CASCADE` only where
    /// the engine supports them.
    pub open spec fn drop_table(self, schema: Seq<char>, name: Seq<char>) -> Seq<char> {
        let guard = if self.supports_drop_if_exists {
            "IF EXISTS "@
        } else {
            Seq::<char>::empty()
        };
        let tail = if self.supports_drop_table_cascade {
            " CASCADE"@
        } else {
            Seq::<char>::empty()
        };
        "DROP TABLE "@ + guard + self.qualified(schema, name) + tail
    }

    /// Appends a quoted identifier.
    pub fn push_ident(&self, out: &mut String, ident: &str)
        ensures
            final(out)@ == old(out)@ + self.quoted(ident@),
    {
        out.push(self.quote_open);
        text::push_doubled(out, ident, self.quote_close);
        out.push(self.quote_close);
        assert(out@ =~= old(out)@ + self.quoted(ident@));
    }

    /// Quotes an identifier, doubling any closing quote in it.
    pub fn quote_ident(&self, ident: &str) -> (r: String)
        ensures
            r@ == self.quoted(ident@),
    {
        let mut out = String::new();
        self.push_ident(&mut out, ident);
        assert(out@ =~= self.quoted(ident@));
        out
    }

    /// Quotes a table name, behind its schema where the engine has schemas.
    pub fn quote_qualified(&self, schema: &str, name: &str) -> (r: String)
        ensures
            r@ == self.qualified(schema@, name@),
    {
        let mut out = String::new();
        if self.supports_schemas {
            self.push_ident(&mut out, schema);
            out.push('.');
        }
        self.push_ident(&mut out, name);
        assert(out@ =~= self.qualified(schema@, name@));
        out
    }

    /// A `DROP TABLE` statement in this dialect.
    pub fn drop_table_stmt(&self, schema: &str, name: &str) -> (r: String)
        ensures
            r@ == self.drop_table(schema@, name@),
    {
        let mut sql = "DROP TABLE ".to_string();
        if self.supports_drop_if_exists {
            sql.append("IF EXISTS ");
        }
        let qualified = self.quote_qualified(schema, name);
        sql.append(qualified.as_str());
        if self.supports_drop_table_cascade {
            sql.append(" CASCADE");
        }
        assert(sql@ =~= self.drop_table(schema@, name@));
        sql
    }

    /// Quoting loses nothing: the identifier can be read back.
    pub proof fn lemma_unquoted(self, ident: Seq<char>)
        ensures
            self.unquoted(self.quoted(ident)) == ident,
    {
        let quoted = self.quoted(ident);
        assert(quoted.subrange(1, quoted.len() - 1) =~= text::doubled(ident, self.quote_close));
        text::lemma_undoubled_doubled(ident, self.quote_close);
    }

    /// Two tables have the same qualified name only if both their schemas and
    /// their names are the same, whatever characters they hold.
    pub proof fn lemma_qualified_names_differ(
        self,
        schema1: Seq<char>,
        name1: Seq<char>,
        schema2: Seq<char>,
        name2: Seq<char>,
    )
        requires
            self.supports_schemas,
            self.quote_close != '.',
            self.qualified(schema1, name1) == self.qualified(schema2, name2),
        ensures
            schema1 == schema2,
            name1 == name2,
    {
        let c = self.quote_close;
        let tail1 = self.quoted(name1);
        let tail2 = self.quoted(name2);
        let body1 = text::doubled(schema1, c) + seq![c, '.'] + tail1;
        let body2 = text::doubled(schema2, c) + seq![c, '.'] + tail2;
        assert(self.qualified(schema1, name1).drop_first() =~= body1);
        assert(self.qualified(schema2, name2).drop_first() =~= body2);
        lemma_end_of_quoted(schema1, tail1, schema2, tail2, c);
        self.lemma_unquoted(name1);
        self.lemma_unquoted(name2);
    }
}

/// Where a doubled text ends is seen from the text alone, if what follows its
/// closing quote is another character.
proof fn lemma_end_of_quoted(
    a: Seq<char>,
    tail_a: Seq<char>,
    b: Seq<char>,
    tail_b: Seq<char>,
    c: char,
)
    requires
        c != '.',
        text::doubled(a, c) + seq![c, '.'] + tail_a == text::doubled(b, c) + seq![c, '.'] + tail_b,
    ensures
        a == b,
        tail_a == tail_b,
    decreases a.len() + b.len(),
{
    let whole_a = text::doubled(a, c) + seq![c, '.'] + tail_a;
    let whole_b = text::doubled(b, c) + seq![c, '.'] + tail_b;
    if a.len() > 0 {
        let rest_a = text::doubled(a.drop_first(), c) + seq![c, '.'] + tail_a;
        if a[0] == c {
            assert(whole_a =~= seq![c, c] + rest_a);
            assert(whole_a[1] == c);
        } else {
            assert(whole_a =~= seq![a[0]] + rest_a);
            assert(whole_a[0] == a[0]);
        }
    }
    if b.len() > 0 {
        let rest_b = text::doubled(b.drop_first(), c) + seq![c, '.'] + tail_b;
        if b[0] == c {
            assert(whole_b =~= seq![c, c] + rest_b);
            assert(whole_b[1] == c);
        } else {
            assert(whole_b =~= seq![b[0]] + rest_b);
            assert(whole_b[0] == b[0]);
        }
    }
    if a.len() == 0 {
        assert(whole_a[0] == c && whole_a[1] == '.');
    }
    if b.len() == 0 {
        assert(whole_b[0] == c && whole_b[1] == '.');
    }
    if a.len() == 0 || b.len() == 0 {
        assert(a.len() == 0 && b.len() == 0);
        assert(tail_a =~= whole_a.skip(2));
        assert(tail_b =~= whole_b.skip(2));
    } else {
        assert(a[0] == b[0]);
        let step = if a[0] == c {
            2int
        } else {
            1int
        };
        let rest_a = text::doubled(a.drop_first(), c) + seq![c, '.'] + tail_a;
        let rest_b = text::doubled(b.drop_first(), c) + seq![c, '.'] + tail_b;
        assert(rest_a =~= whole_a.skip(step));
        assert(rest_b =~= whole_b.skip(step));
        lemma_end_of_quoted(a.drop_first(), tail_a, b.drop_first(), tail_b, c);
        assert(a =~= seq![a[0]] + a.drop_first());
        assert(b =~= seq![b[0]] + b.drop_first());
    }
}

#[derive(Debug, Clone)]
pub struct ColumnDefinition {
    pub name: String,
    pub data_type: DataType,
    pub nullable: bool,
    pub default: Option<String>,
    /// A generated key. Where it is set, `default` is ignored: a copied table
    /// without its generated key takes no further inserts.
    pub identity: Option<IdentityGeneration>,
}

#[derive(Debug, Clone)]
pub struct TableDefinition {
    pub schema: String,
    pub name: String,
    pub columns: Vec<ColumnDefinition>,
    pub primary_key: Option<PrimaryKey>,
}

#[derive(Debug, Clone)]
pub struct IndexDefinition {
    pub table: TableRef,
    pub name: String,
    pub columns: Vec<IndexColumn>,
    pub unique: bool,
    pub method: Option<String>,
}

#[derive(Debug, Clone)]
pub enum ConstraintDefinition {
    PrimaryKey(PrimaryKey),
    ForeignKey(ForeignKey),
    Unique(UniqueConstraint),
    Check(CheckConstraint),
}

/// One structural change to a table, so that a migration is a list of these.
#[derive(Debug, Clone)]
pub enum TableAlteration {
    AddColumn { table: TableRef, column: ColumnDefinition },
    DropColumn { table: TableRef, column: String },
    AlterColumnType { table: TableRef, column: String, data_type: DataType },
    AddConstraint { table: TableRef, constraint: ConstraintDefinition },
    DropConstraint { table: TableRef, name: String },
    DropIndex { table: TableRef, name: String },
}

/// The rows whose `column` is at least `lower` and less than `upper`, where
/// those are given. Neighbouring ranges share a bound and no row.
#[derive(Debug, Clone)]
pub struct KeyRange {
    pub column: String,
    pub lower: Option<Value>,
    pub upper: Option<Value>,
}

/// One side of a key range.
pub enum Condition {
    /// The key is not less than this.
    AtLeast(ValueModel),
    /// The key is less than this.
    Below(ValueModel),
}

/// The value that a condition compares with.
pub open spec fn bound_of(c: Condition) -> ValueModel {
    match c {
        Condition::AtLeast(v) => v,
        Condition::Below(v) => v,
    }
}

impl KeyRange {
    /// The conditions that a row's key meets: the lower bound is part of the
    /// range, the upper bound is not.
    pub open spec fn conditions(self) -> Seq<Condition> {
        (match self.lower {
            Some(v) => seq![Condition::AtLeast(v@)],
            None => Seq::<Condition>::empty(),
        }) + (match self.upper {
            Some(v) => seq![Condition::Below(v@)],
            None => Seq::<Condition>::empty(),
        })
    }

    /// The bounds, in the order of the conditions.
    pub open spec fn spec_bounds(self) -> Seq<ValueModel> {
        self.conditions().map_values(|c: Condition| bound_of(c))
    }

    /// The bounds, in the order of the conditions.
    pub fn bounds(&self) -> (r: Vec<Value>)
        ensures
            value::models(r@) == self.spec_bounds(),
    {
        let mut bounds: Vec<Value> = Vec::new();
        if let Some(lower) = &self.lower {
            bounds.push(lower.clone());
        }
        if let Some(upper) = &self.upper {
            bounds.push(upper.clone());
        }
        assert(value::models(bounds@) =~= self.spec_bounds());
        bounds
    }

    /// Whether a key is in the range, by the engine's order on keys.
    pub open spec fn holds(
        self,
        key: ValueModel,
        less: spec_fn(ValueModel, ValueModel) -> bool,
    ) -> bool {
        forall|i: int|
            0 <= i < self.conditions().len() ==> meets(key, #[trigger] self.conditions()[i], less)
    }

    /// Ranges that share a bound share no key, and together they hold every
    /// key from the first one's lower bound up to the second one's upper
    /// bound: so neighbouring ranges can be read apart without reading a row
    /// twice or not at all.
    pub proof fn lemma_neighbours(
        first: KeyRange,
        second: KeyRange,
        key: ValueModel,
        less: spec_fn(ValueModel, ValueModel) -> bool,
    )
        requires
            first.upper matches Some(a) && second.lower matches Some(b) && a@ == b@,
        ensures
            !(first.holds(key, less) && second.holds(key, less)),
            first.holds(key, less) || second.holds(key, less) <== {
                &&& first.lower matches Some(v) ==> meets(key, Condition::AtLeast(v@), less)
                &&& second.upper matches Some(v) ==> meets(key, Condition::Below(v@), less)
            },
    {
        let below = Condition::Below(first.upper->0@);
        let above = Condition::AtLeast(second.lower->0@);
        let last = first.conditions().len() - 1;
        assert(first.conditions()[last] == below);
        assert(second.conditions()[0] == above);
    }
}

/// Whether a key meets a condition, by the engine's order on keys.
pub open spec fn meets(
    key: ValueModel,
    c: Condition,
    less: spec_fn(ValueModel, ValueModel) -> bool,
) -> bool {
    match c {
        Condition::AtLeast(bound) => !less(key, bound),
        Condition::Below(bound) => less(key, bound),
    }
}

/// What to read of a table.
#[derive(Debug, Clone)]
pub struct StreamOptions {
    /// How many rows to fetch at a time: a hint that an engine may ignore,
    /// but never zero.
    pub batch_size: usize,
    /// Which columns, in which order; all of them where not given.
    pub columns: Option<Vec<String>>,
    pub key_range: Option<KeyRange>,
}

impl StreamOptions {
    /// What is wrong with the options, if anything: the first of an empty
    /// batch, an empty projection, and a key range without a bound.
    pub open spec fn problem(self) -> Option<Seq<char>> {
        if self.batch_size == 0 {
            Some("batch_size must be >= 1"@)
        } else if self.columns matches Some(names) && names@.len() == 0 {
            Some("columns projection must not be empty"@)
        } else if self.key_range matches Some(range) && range.lower is None && range.upper is None {
            Some("key_range must set at least one bound"@)
        } else {
            None
        }
    }

    /// Refuses options that say nothing sensible.
    pub fn check(&self) -> (r: Result<(), DdbCoreError>)
        ensures
            match r {
                Ok(_) => self.problem() is None,
                Err(e) => self.problem() matches Some(detail) && e.is_query(detail),
            },
    {
        if self.batch_size == 0 {
            return Err(DdbCoreError::Query("batch_size must be >= 1".to_string()));
        }
        if let Some(names) = &self.columns {
            if names.len() == 0 {
                return Err(
                    DdbCoreError::Query("columns projection must not be empty".to_string()),
                );
            }
        }
        if let Some(range) = &self.key_range {
            if range.lower.is_none() && range.upper.is_none() {
                return Err(
                    DdbCoreError::Query("key_range must set at least one bound".to_string()),
                );
            }
        }
        Ok(())
    }

    /// The bounds of the key range, where there is one.
    pub open spec fn spec_bounds(self) -> Seq<ValueModel> {
        match self.key_range {
            Some(range) => range.spec_bounds(),
            None => Seq::<ValueModel>::empty(),
        }
    }

    /// The bounds of the key range, where there is one.
    pub fn bounds(&self) -> (r: Vec<Value>)
        ensures
            value::models(r@) == self.spec_bounds(),
    {
        match &self.key_range {
            Some(range) => range.bounds(),
            None => {
                let none: Vec<Value> = Vec::new();
                assert(value::models(none@) =~= self.spec_bounds());
                none
            },
        }
    }
}

/// The transport is encrypted exactly where encryption was asked for, and checks
/// who is at the other end exactly where that was asked for too.
pub proof fn lemma_transport(config: ConnectionConfig)
    ensures
        config.spec_transport() != TransportSecurity::Disabled <==> config.encryption
            != EncryptionMode::ClearText,
        config.spec_transport() == TransportSecurity::VerifyIdentity <==> config.encryption
            == (EncryptionMode::Tls { verify_cert: true }),
{
}

/// Options are refused exactly where they ask for empty batches, for no columns
/// at all, or for a range without a bound.
pub proof fn lemma_options_are_refused(options: StreamOptions)
    ensures
        options.problem() is None <==> {
            &&& options.batch_size > 0
            &&& options.columns matches Some(names) ==> names@.len() > 0
            &&& options.key_range matches Some(range) ==> range.lower is Some || range.upper is Some
        },
{
}

} // verus!

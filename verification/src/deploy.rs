//! The deployment statements: flow, pipeline and connector declarations, the
//! links between them, and the create statements that instantiate them. These
//! are plain data produced by a deployment-language frontend; here they carry
//! their identifiers and compute their fully qualified names.

use crate::event::Value;
use vstd::prelude::*;
use vstd::string::StringExecFns;

verus! {

/// The fully qualified name below a module path: the module segments joined
/// with `::`, followed by the identifier.
pub open spec fn spec_fqn(module: Seq<Seq<char>>, id: Seq<char>) -> Seq<char>
    decreases module.len(),
{
    if module.len() == 0 {
        id
    } else {
        module.first() + "::"@ + spec_fqn(module.drop_first(), id)
    }
}

/// The mathematical content of a node identifier.
pub ghost struct NodeIdView {
    pub id: Seq<char>,
    pub module: Seq<Seq<char>>,
}

/// The identifier of a named deployment entity: its own name and the module
/// path it lives under.
pub struct NodeId {
    /// The entity's own name.
    pub id: String,
    /// The module path, outermost segment first.
    pub module: Vec<String>,
}

impl View for NodeId {
    type V = NodeIdView;

    open spec fn view(&self) -> NodeIdView {
        NodeIdView { id: self.id@, module: self.module@.map_values(|m: String| m@) }
    }
}

impl NodeId {
    /// The fully qualified name of the entity.
    #[verifier::loop_isolation(false)]
    pub fn fqn(&self) -> (r: String)
        ensures
            r@ == spec_fqn(self@.module, self@.id),
    {
        let ghost module = self@.module;
        let mut r = String::new();
        let n = self.module.len();
        let mut i: usize = 0;
        proof {
            assert(module.skip(0) =~= module);
        }
        while i < n
            invariant
                n == module.len(),
                i <= n,
                spec_fqn(module, self@.id) == r@ + spec_fqn(module.skip(i as int), self@.id),
            decreases n - i,
        {
            let ghost r0 = r@;
            r.append(self.module[i].as_str());
            r.append("::");
            proof {
                assert(module.skip(i as int).first() == module[i as int]);
                assert(module.skip(i as int).drop_first() =~= module.skip(i + 1));
                assert(r@ + spec_fqn(module.skip(i + 1), self@.id) =~= r0 + spec_fqn(
                    module.skip(i as int),
                    self@.id,
                ));
            }
            i += 1;
        }
        proof {
            assert(module.skip(n as int) =~= Seq::<Seq<char>>::empty());
        }
        r.append(self.id.as_str());
        r
    }
}

/// What a create statement instantiates.
#[derive(Clone, Copy, PartialEq, Eq, Structural, Debug)]
pub enum CreateKind {
    /// A connector instance.
    Connector,
    /// A pipeline instance.
    Pipeline,
}

/// What a deploy statement deploys.
#[derive(Clone, Copy, PartialEq, Eq, Structural, Debug)]
pub enum DeployKind {
    /// A flow instance.
    Flow,
}

/// A deployment endpoint: one side of a link.
pub enum DeployEndpoint {
    /// A builtin or pre-existing deployed artefact instance, by url.
    System(String),
    /// A local artefact deployed in the same definition, with an optional
    /// port.
    Troy(String, Option<String>),
}

/// A link between two artefacts in a flow.
pub struct DeployLink {
    /// The instance connected from.
    pub from: DeployEndpoint,
    /// The instance connected to.
    pub to: DeployEndpoint,
}

/// A pipeline declaration.
pub struct PipelineDecl {
    /// The frontend-assigned metadata identifier.
    pub mid: usize,
    /// The identifier of the pipeline.
    pub node_id: NodeId,
}

impl PipelineDecl {
    /// The fully qualified name of the declaration.
    pub fn fqn(&self) -> (r: String)
        ensures
            r@ == spec_fqn(self.node_id@.module, self.node_id@.id),
    {
        self.node_id.fqn()
    }

    /// The metadata identifier of the declaration.
    pub fn mid(&self) -> (r: usize)
        ensures
            r == self.mid,
    {
        self.mid
    }
}

/// A connector declaration.
pub struct ConnectorDecl {
    /// The frontend-assigned metadata identifier.
    pub mid: usize,
    /// The identifier of the connector.
    pub node_id: NodeId,
    /// Resolved argument defaults.
    pub params: Option<Vec<(String, Value)>>,
    /// The builtin connector kind this declaration names.
    pub builtin_kind: String,
    /// Documentation comments.
    pub docs: Option<String>,
}

impl ConnectorDecl {
    /// The fully qualified name of the declaration.
    pub fn fqn(&self) -> (r: String)
        ensures
            r@ == spec_fqn(self.node_id@.module, self.node_id@.id),
    {
        self.node_id.fqn()
    }

    /// The metadata identifier of the declaration.
    pub fn mid(&self) -> (r: usize)
        ensures
            r == self.mid,
    {
        self.mid
    }
}

/// A flow declaration.
pub struct FlowDecl {
    /// The frontend-assigned metadata identifier.
    pub mid: usize,
    /// The identifier of the flow.
    pub node_id: NodeId,
    /// Resolved argument defaults.
    pub params: Option<Vec<(String, Value)>>,
    /// The links between the artefacts of the flow.
    pub links: Vec<DeployLink>,
    /// The create statements the flow deploys.
    pub atoms: Vec<CreateStmt>,
    /// Documentation comments.
    pub docs: Option<String>,
}

impl FlowDecl {
    /// The fully qualified name of the declaration.
    pub fn fqn(&self) -> (r: String)
        ensures
            r@ == spec_fqn(self.node_id@.module, self.node_id@.id),
    {
        self.node_id.fqn()
    }

    /// The metadata identifier of the declaration.
    pub fn mid(&self) -> (r: usize)
        ensures
            r == self.mid,
    {
        self.mid
    }
}

/// A create statement inside a flow.
pub struct CreateStmt {
    /// The frontend-assigned metadata identifier.
    pub mid: usize,
    /// The alias this instance is created under.
    pub alias: String,
    /// The name of the artefact definition being instantiated.
    pub target: String,
    /// The identifier of the created instance.
    pub node_id: NodeId,
    /// The definition being instantiated.
    pub atom: DeployStmt,
    /// Whether a connector or a pipeline is created.
    pub kind: CreateKind,
    /// Documentation comments.
    pub docs: Option<String>,
}

impl CreateStmt {
    /// The fully qualified name of the statement.
    pub fn fqn(&self) -> (r: String)
        ensures
            r@ == spec_fqn(self.node_id@.module, self.node_id@.id),
    {
        self.node_id.fqn()
    }

    /// The metadata identifier of the statement.
    pub fn mid(&self) -> (r: usize)
        ensures
            r == self.mid,
    {
        self.mid
    }
}

/// A deploy statement creating a flow instance.
pub struct DeployFlow {
    /// The frontend-assigned metadata identifier.
    pub mid: usize,
    /// The alias this instance is deployed under.
    pub alias: String,
    /// The name of the flow definition being deployed.
    pub target: String,
    /// The identifier of the deployed instance.
    pub node_id: NodeId,
    /// The definition being deployed.
    pub atom: DeployStmt,
    /// What kind of entity is deployed.
    pub kind: DeployKind,
    /// Documentation comments.
    pub docs: Option<String>,
}

impl DeployFlow {
    /// The fully qualified name of the statement.
    pub fn fqn(&self) -> (r: String)
        ensures
            r@ == spec_fqn(self.node_id@.module, self.node_id@.id),
    {
        self.node_id.fqn()
    }

    /// The metadata identifier of the statement.
    pub fn mid(&self) -> (r: usize)
        ensures
            r == self.mid,
    {
        self.mid
    }
}

/// One statement of a deployment.
pub enum DeployStmt {
    /// A flow declaration.
    FlowDecl(Box<FlowDecl>),
    /// A pipeline declaration.
    PipelineDecl(Box<PipelineDecl>),
    /// A connector declaration.
    ConnectorDecl(Box<ConnectorDecl>),
    /// The create instance constructor of a flow.
    DeployFlowStmt(Box<DeployFlow>),
}

/// The identifier a deploy statement carries.
pub open spec fn spec_stmt_node_id(stmt: DeployStmt) -> NodeIdView {
    match stmt {
        DeployStmt::FlowDecl(s) => s.node_id@,
        DeployStmt::PipelineDecl(s) => s.node_id@,
        DeployStmt::ConnectorDecl(s) => s.node_id@,
        DeployStmt::DeployFlowStmt(s) => s.node_id@,
    }
}

/// The metadata identifier a deploy statement carries.
pub open spec fn spec_stmt_mid(stmt: DeployStmt) -> usize {
    match stmt {
        DeployStmt::FlowDecl(s) => s.mid,
        DeployStmt::PipelineDecl(s) => s.mid,
        DeployStmt::ConnectorDecl(s) => s.mid,
        DeployStmt::DeployFlowStmt(s) => s.mid,
    }
}

impl DeployStmt {
    /// The fully qualified name of the statement.
    pub fn fqn(&self) -> (r: String)
        ensures
            r@ == spec_fqn(spec_stmt_node_id(*self).module, spec_stmt_node_id(*self).id),
    {
        match self {
            DeployStmt::FlowDecl(stmt) => stmt.fqn(),
            DeployStmt::PipelineDecl(stmt) => stmt.fqn(),
            DeployStmt::ConnectorDecl(stmt) => stmt.fqn(),
            DeployStmt::DeployFlowStmt(stmt) => stmt.fqn(),
        }
    }

    /// The metadata identifier of the statement.
    pub fn mid(&self) -> (r: usize)
        ensures
            r == spec_stmt_mid(*self),
    {
        match self {
            DeployStmt::PipelineDecl(s) => s.mid(),
            DeployStmt::ConnectorDecl(s) => s.mid(),
            DeployStmt::FlowDecl(s) => s.mid(),
            DeployStmt::DeployFlowStmt(s) => s.mid(),
        }
    }
}

/// A whole deployment: configuration directives, statements, and the named
/// definitions they introduce.
pub struct Deploy {
    /// Configuration directives.
    pub config: Vec<(String, Value)>,
    /// The statements, in source order.
    pub stmts: Vec<DeployStmt>,
    /// The named definitions.
    pub definitions: Vec<(NodeId, DeployStmt)>,
    /// The named flow definitions.
    pub flows: Vec<(NodeId, FlowDecl)>,
    /// Documentation comments.
    pub docs: Vec<String>,
}

} // verus!

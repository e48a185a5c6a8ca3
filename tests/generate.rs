use chitin::{
    CodegenOption, Entry, FuncOrCode, Request, Schema,
};

fn req(ty: &str, name: &str) -> Request {
    Request { ty: ty.to_owned(), name: name.to_owned() }
}

fn get_article() -> Entry {
    Entry::Leaf {
        name: "GetArticle".to_owned(),
        response_ty: "Option<Article>".to_owned(),
        request: vec![req("i32", "id")],
    }
}

fn blog() -> Schema {
    Schema { name: "Blog".to_owned(), entries: vec![get_article()] }
}

fn admin() -> Schema {
    Schema {
        name: "AdminQuery".to_owned(),
        entries: vec![Entry::Leaf {
            name: "DeleteUser".to_owned(),
            response_ty: "()".to_owned(),
            request: vec![req("u64", "user_id")],
        }],
    }
}

fn blog_with_admin() -> Schema {
    Schema {
        name: "Blog".to_owned(),
        entries: vec![
            get_article(),
            Entry::Node {
                name: "Admin".to_owned(),
                query_name: "AdminQuery".to_owned(),
                codegen: FuncOrCode::Func(Box::new(admin())),
            },
        ],
    }
}

const BLOG_SERVER: &str = "#[async_trait]\ntrait BlogRouter {\n    async fn get_article(&self, id: i32) -> Option<Article>;\n    async fn handle(&self, query: Blog) -> Result<String, Error> {\n        match query {\n             Blog::GetArticle { id } => {\n                 let resp = self.get_article(id).await;\n                 serde_json::to_string(&resp)\n             }\n        }\n    }\n}\n";

const BLOG_CLIENT: &str = "abstract class BlogFetcher {\n    abstract fetchResult(query: string): Promise<string>;\n    async getArticle(id: number): Promise<Article?> {\n        return JSON.parse(await this.fetchResult(JSON.stringify({ \"GetArticle\": { id } })));\n    }\n}\n";

#[test]
fn server_leaf_scenario() {
    let code = blog().codegen(&CodegenOption::Server);
    assert_eq!(code, BLOG_SERVER);
    assert!(code.contains("trait BlogRouter {"));
    assert!(code.contains("    async fn get_article(&self, id: i32) -> Option<Article>;\n"));
    assert!(code.contains("Blog::GetArticle { id } => {"));
}

#[test]
fn client_leaf_scenario() {
    let code = blog().codegen(&CodegenOption::Client { is_root: true });
    assert_eq!(code, BLOG_CLIENT);
    assert!(code.contains("abstract class BlogFetcher {"));
    assert!(code.contains("async getArticle(id: number): Promise<Article?>"));
}

#[test]
fn client_not_root_has_no_wrapper() {
    let code = blog().client_codegen(&CodegenOption::Client { is_root: false });
    assert_eq!(
        code,
        "    async getArticle(id: number): Promise<Article?> {\n        return JSON.parse(await this.fetchResult(JSON.stringify({ \"GetArticle\": { id } })));\n    }\n"
    );
}

#[test]
fn nested_server_scenario() {
    let code = blog_with_admin().codegen(&CodegenOption::Server);
    let admin_at = code.find("trait AdminQueryRouter {").unwrap();
    let blog_at = code.find("trait BlogRouter {").unwrap();
    assert!(admin_at < blog_at);
    assert!(code.contains("    type AdminRouter: AdminQueryRouter + Sync;\n"));
    assert!(code.contains("    fn admin_router(&self) -> &Self::AdminRouter;\n"));
    assert!(code.contains("Blog::Admin(query) => {\n                 self.admin_router().handle(query).await\n"));
    assert!(code.contains("    async fn delete_user(&self, user_id: u64) -> ();\n"));
    assert!(code.starts_with(&admin().server_codegen(&CodegenOption::Server)));
}

#[test]
fn nested_client_root_wrapper_once() {
    let code = blog_with_admin().codegen(&CodegenOption::Client { is_root: true });
    assert_eq!(code.matches("abstract class").count(), 1);
    assert_eq!(code.matches("abstract fetchResult").count(), 1);
    assert!(code.starts_with("abstract class BlogFetcher {\n"));
    assert!(code.ends_with("}\n"));
    let first = code.find("async getArticle(id: number): Promise<Article?>").unwrap();
    let second = code.find("async deleteUser(user_id: number): Promise<void>").unwrap();
    assert!(first < second);
    assert!(code.contains(
        "        return JSON.parse(await this.fetchResult(JSON.stringify({ \"DeleteUser\": { user_id } })));\n"
    ));
}

#[test]
fn nested_client_text_is_the_routers_own() {
    let inner = CodegenOption::Client { is_root: false };
    let own = blog().codegen(&inner) + &admin().codegen(&inner);
    assert_eq!(blog_with_admin().codegen(&inner), own);
    let root = blog_with_admin().codegen(&CodegenOption::Client { is_root: true });
    assert!(root.contains(&admin().codegen(&inner)));
}

#[test]
fn empty_schema_in_both_modes() {
    let empty = Schema { name: "Empty".to_owned(), entries: vec![] };
    assert_eq!(
        empty.codegen(&CodegenOption::Server),
        "#[async_trait]\ntrait EmptyRouter {\n    async fn handle(&self, query: Empty) -> Result<String, Error> {\n        match query {\n        }\n    }\n}\n"
    );
    assert_eq!(
        empty.codegen(&CodegenOption::Client { is_root: true }),
        "abstract class EmptyFetcher {\n    abstract fetchResult(query: string): Promise<string>;\n}\n"
    );
    assert_eq!(empty.codegen(&CodegenOption::Client { is_root: false }), "");
}

#[test]
fn generation_is_deterministic() {
    let s = blog_with_admin();
    assert_eq!(s.codegen(&CodegenOption::Server), s.codegen(&CodegenOption::Server));
    let c = CodegenOption::Client { is_root: true };
    assert_eq!(s.codegen(&c), blog_with_admin().codegen(&c));
}

#[test]
fn entry_order_is_kept() {
    let s = Schema {
        name: "Q".to_owned(),
        entries: vec![
            Entry::Leaf { name: "Zeta".to_owned(), response_ty: "i32".to_owned(), request: vec![] },
            Entry::Leaf { name: "Alpha".to_owned(), response_ty: "i32".to_owned(), request: vec![] },
        ],
    };
    let server = s.codegen(&CodegenOption::Server);
    assert!(server.find("fn zeta(").unwrap() < server.find("fn alpha(").unwrap());
    assert!(server.find("Q::Zeta {").unwrap() < server.find("Q::Alpha {").unwrap());
    let client = s.codegen(&CodegenOption::Client { is_root: true });
    assert!(client.find("async zeta(").unwrap() < client.find("async alpha(").unwrap());
}

#[test]
fn gen_string_resolves_nested_schema() {
    let f = FuncOrCode::Func(Box::new(admin()));
    assert_eq!(f.gen_string(&CodegenOption::Server), admin().codegen(&CodegenOption::Server));
}

#[test]
fn schema_getters() {
    let s = blog();
    assert_eq!(s.get_name(), "Blog");
    assert_eq!(s.get_entries().len(), 1);
}

pub mod cargo_rustls_mitm;
pub mod npm_axios_csrf;
pub mod npm_lodash_prototype;
pub mod pip_requests_ssrf;

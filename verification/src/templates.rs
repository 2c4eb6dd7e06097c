use vstd::prelude::*;
use crate::text::owned;

verus! {

// The fixed files of a generated Vue project.

pub const VITE_CONFIG: &'static str = r#"
import { fileURLToPath, URL } from 'node:url'

import { defineConfig } from 'vite'
import vue from '@vitejs/plugin-vue'
import vueJsx from '@vitejs/plugin-vue-jsx'
import vueDevTools from 'vite-plugin-vue-devtools'

// https://vite.dev/config/
export default defineConfig({
  plugins: [
    vue(),
    vueJsx(),
    vueDevTools(),
  ],
  resolve: {
    alias: {
      '@': fileURLToPath(new URL('./src', import.meta.url))
    },
  },
})

"#;

pub const TS_CONFIG_NOE: &'static str = r#"
{
  "extends": "@tsconfig/node22/tsconfig.json",
  "include": [
    "vite.config.*",
    "vitest.config.*",
    "cypress.config.*",
    "nightwatch.conf.*",
    "playwright.config.*",
    "eslint.config.*"
  ],
  "compilerOptions": {
    "noEmit": true,
    "tsBuildInfoFile": "./node_modules/.tmp/tsconfig.node.tsbuildinfo",

    "module": "ESNext",
    "moduleResolution": "Bundler",
    "types": ["node"]
  }
}
"#;

pub const TS_CONFIG: &'static str = r#"
{
  "files": [],
  "references": [
    {
      "path": "./tsconfig.node.json"
    },
    {
      "path": "./tsconfig.app.json"
    }
  ]
}
"#;

pub const TS_CONFIG_APP: &'static str = r#"
{
  "extends": "@vue/tsconfig/tsconfig.dom.json",
  "include": ["env.d.ts", "src/**/*", "src/**/*.vue"],
  "exclude": ["src/**/__tests__/*"],
  "compilerOptions": {
    "tsBuildInfoFile": "./node_modules/.tmp/tsconfig.app.tsbuildinfo",

    "paths": {
      "@/*": ["./src/*"]
    }
  }
}

"#;

pub const HTML: &'static str = r#"
<!DOCTYPE html>
<html lang="">
  <head>
    <meta charset="UTF-8">
    <link rel="icon" href="/favicon.ico">
    <meta name="viewport" content="width=device-width, initial-scale=1.0">
    <title>Vite App</title>
  </head>
  <body>
    <div id="app"></div>
    <script type="module" src="/src/main.ts"></script>
  </body>
</html>
"#;

pub const DTS: &'static str = r#"
/// <reference types="vite/client" />
"#;

pub const APP_VUE: &'static str = r#"
<script setup lang="ts">
</script>

<template>
  <div id="root">
    <router-view></router-view>
  </div>
</template>

<style scoped>
* {
  margin: 0;
  padding: 0;
  box-sizing: border-box;
}
#root {
  color: rgb(0, 0, 0);
  background-color: rgb(255, 255, 255);
  padding: 20px;
}
</style>
"#;

pub const MAIN: &'static str = r#"
import { createApp } from 'vue';
import App from './App.vue';
import Antd from 'ant-design-vue';
import 'ant-design-vue/dist/reset.css';
import router from './router';

const app = createApp(App);
app.use(Antd);
app.use(router);
app.mount('#app');
"#;

pub const START_SH_CONFIG: &'static str = r#"
#!/bin/bash

# 检查 Node.js 版本，要求最低版本为 18
echo "检查 Node.js 版本"
node_version=$(node -v)
if [[ ! $node_version =~ ^v1[89] ]] && [[ ! $node_version =~ ^v[2-9][0-9] ]]; then
    echo "Node.js 版本必须 >= 18，当前版本为 $node_version"
    exit 1
fi

# 检查 npm 是否安装
echo "检查 npm"
if ! command -v npm &> /dev/null; then
    echo "npm 未安装，请安装 npm"
    exit 1
else
    echo "安装依赖"
    if npm install; then
        echo "npm install 成功"
    else
        echo "npm install 失败"
        exit 1
    fi
fi

# 启动项目
echo "启动项目"
if npm run dev; then
    echo "项目启动成功"
else
    echo "项目启动失败"
    exit 1
fi

"#;

pub const START_WIN_CONFIG: &'static str = r#"
@echo off
echo ===================================
echo Vue Template Project Startup Script
echo ===================================

:: Check if Node.js is installed
where node >nul 2>nul
if %ERRORLEVEL% neq 0 (
    echo Error: Node.js not detected. Please install Node.js first.
    pause
    exit /b 1
)

:: Check if package.json exists
if not exist package.json (
    echo Error: package.json not found in current directory.
    echo Please make sure to run this script in the Vue Template project root directory.
    pause
    exit /b 1
)

:: Check if node_modules exists, install dependencies if not
if not exist node_modules\ (
    echo node_modules folder not detected, installing dependencies...
    echo.
    call npm install
    
    if %ERRORLEVEL% neq 0 (
        echo.
        echo Dependency installation failed. Please check your network connection or package.json file.
        pause
        exit /b 1
    )
    
    echo.
    echo Dependencies installed successfully!
) else (
    echo node_modules folder detected, skipping installation step.
)

echo.
echo Starting Vue Template development server...
echo Press Ctrl+C to stop the server.
echo.

:: Start Vue Template development server
call npm run dev

pause

"#;

/// The path of the `i`-th fixed file of a generated project.
pub open spec fn template_name(i: int) -> Seq<char> {
    if i == 0 {
        "vite.config.ts"@
    } else if i == 1 {
        "tsconfig.node.json"@
    } else if i == 2 {
        "tsconfig.json"@
    } else if i == 3 {
        "tsconfig.app.json"@
    } else if i == 4 {
        "index.html"@
    } else if i == 5 {
        "env.d.ts"@
    } else if i == 6 {
        "src/App.vue"@
    } else if i == 7 {
        "src/main.ts"@
    } else if i == 8 {
        "start"@
    } else {
        "start.cmd"@
    }
}

/// The fixed files of a generated project all have different paths.
pub proof fn lemma_template_names_distinct()
    ensures
        forall|i: int, j: int| 0 <= i < j < 10 ==> #[trigger] template_name(i) != #[trigger] template_name(j),
{
    reveal_strlit("vite.config.ts");
    reveal_strlit("tsconfig.node.json");
    reveal_strlit("tsconfig.json");
    reveal_strlit("tsconfig.app.json");
    reveal_strlit("index.html");
    reveal_strlit("env.d.ts");
    reveal_strlit("src/App.vue");
    reveal_strlit("src/main.ts");
    reveal_strlit("start");
    reveal_strlit("start.cmd");
    assert forall|i: int, j: int| 0 <= i < j < 10 implies #[trigger] template_name(i) != #[trigger] template_name(j) by {
        let a = template_name(i);
        let b = template_name(j);
        if a == b {
            assert(a.len() == b.len());
            assert(a[0] == b[0]);
            assert(a[a.len() - 1] == b[b.len() - 1]);
            assert(a[a.len() - 2] == b[b.len() - 2]);
            assert(a[a.len() - 3] == b[b.len() - 3]);
        }
    }
}

/// A file of the project skeleton: its path in the project and its content.
#[derive(Debug)]
pub struct FileTemplate {
    pub filename: String,
    pub content: String,
}

/// The fixed files of a generated Vue project, in the order they are written: the Vite and
/// TypeScript configuration, the HTML entry, the type declarations, the root component, the
/// entry script and the start scripts for Unix and Windows.
pub fn template_files() -> (files: [FileTemplate; 10])
    ensures
        files@[0].filename@ == template_name(0),
        files@[0].content@ == VITE_CONFIG@,
        files@[1].filename@ == template_name(1),
        files@[1].content@ == TS_CONFIG_NOE@,
        files@[2].filename@ == template_name(2),
        files@[2].content@ == TS_CONFIG@,
        files@[3].filename@ == template_name(3),
        files@[3].content@ == TS_CONFIG_APP@,
        files@[4].filename@ == template_name(4),
        files@[4].content@ == HTML@,
        files@[5].filename@ == template_name(5),
        files@[5].content@ == DTS@,
        files@[6].filename@ == template_name(6),
        files@[6].content@ == APP_VUE@,
        files@[7].filename@ == template_name(7),
        files@[7].content@ == MAIN@,
        files@[8].filename@ == template_name(8),
        files@[8].content@ == START_SH_CONFIG@,
        files@[9].filename@ == template_name(9),
        files@[9].content@ == START_WIN_CONFIG@,
{
    [
        FileTemplate { filename: owned("vite.config.ts"), content: owned(VITE_CONFIG) },
        FileTemplate { filename: owned("tsconfig.node.json"), content: owned(TS_CONFIG_NOE) },
        FileTemplate { filename: owned("tsconfig.json"), content: owned(TS_CONFIG) },
        FileTemplate { filename: owned("tsconfig.app.json"), content: owned(TS_CONFIG_APP) },
        FileTemplate { filename: owned("index.html"), content: owned(HTML) },
        FileTemplate { filename: owned("env.d.ts"), content: owned(DTS) },
        FileTemplate { filename: owned("src/App.vue"), content: owned(APP_VUE) },
        FileTemplate { filename: owned("src/main.ts"), content: owned(MAIN) },
        FileTemplate { filename: owned("start"), content: owned(START_SH_CONFIG) },
        FileTemplate { filename: owned("start.cmd"), content: owned(START_WIN_CONFIG) },
    ]
}

} // verus!
